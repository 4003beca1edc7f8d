use vstd::prelude::*;

verus! {

/// Where a stored file can be fetched from.
#[derive(Debug)]
pub struct FileInfo {
    pub uri: String,
}

/// The position of the last `.` among the first `n` characters, or -1.
pub open spec fn last_dot_before(name: Seq<char>, n: int) -> int
    decreases n,
{
    if n <= 0 {
        -1
    } else if name[n - 1] == '.' {
        n - 1
    } else {
        last_dot_before(name, n - 1)
    }
}

/// The extension of a file name: what follows its last `.`, or the whole
/// name when it has none.
pub open spec fn extension_of(name: Seq<char>) -> Seq<char> {
    name.subrange(last_dot_before(name, name.len() as int) + 1, name.len() as int)
}

proof fn lemma_last_dot_range(name: Seq<char>, n: int)
    requires
        0 <= n <= name.len(),
    ensures
        -1 <= last_dot_before(name, n) < n,
    decreases n,
{
    if n > 0 {
        lemma_last_dot_range(name, n - 1);
    }
}

pub fn file_extension(name: &str) -> (r: String)
    ensures
        r@ == extension_of(name@),
{
    let n = name.unicode_len();
    let mut i: usize = n;
    while i > 0
        invariant
            n == name@.len(),
            i <= n,
            last_dot_before(name@, n as int) == last_dot_before(name@, i as int),
        decreases i,
    {
        if name.get_char(i - 1) == '.' {
            proof {
                lemma_last_dot_range(name@, n as int);
            }
            return String::from_str(name.substring_char(i, n));
        }
        i = i - 1;
    }
    String::from_str(name.substring_char(0, n))
}

} // verus!
