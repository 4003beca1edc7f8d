use vstd::prelude::*;

verus! {

/// Where the database lives.
#[derive(Debug)]
pub struct Database {
    pub url: String,
}

/// Process configuration, built once at start and handed to what needs it.
#[derive(Debug)]
pub struct Settings {
    pub port: u16,
    pub database: Database,
    pub data_dir: String,
    pub files_dir: String,
}

pub const DEFAULT_PORT: u16 = 3000;

impl Database {
    /// A SQLite file named `database.db` in the data directory.
    pub fn default_for(data_dir: &str) -> (d: Database)
        ensures
            d.url@ == "sqlite://"@ + data_dir@ + "/database.db"@,
    {
        let url = String::from_str("sqlite://").concat(data_dir).concat("/database.db");
        Database { url }
    }
}

impl Settings {
    /// Settings from what a configuration file gave: port 3000 and the
    /// default database unless given; uploaded files under `files` in the
    /// data directory.
    pub fn from_parts(port: Option<u16>, database: Option<Database>, data_dir: &str) -> (s: Settings)
        ensures
            s.port == match port {
                Some(p) => p,
                None => DEFAULT_PORT,
            },
            database matches Some(d) ==> s.database == d,
            database is None ==> s.database.url@ == "sqlite://"@ + data_dir@ + "/database.db"@,
            s.data_dir@ == data_dir@,
            s.files_dir@ == data_dir@ + "/files"@,
    {
        let port = match port {
            Some(p) => p,
            None => DEFAULT_PORT,
        };
        let database = match database {
            Some(d) => d,
            None => Database::default_for(data_dir),
        };
        Settings {
            port,
            database,
            data_dir: String::from_str(data_dir),
            files_dir: String::from_str(data_dir).concat("/files"),
        }
    }

    /// The file of a SQLite database URL, which must exist before the
    /// database is opened; `None` for any other kind of database.
    pub fn sqlite_file(&self) -> (r: Option<String>)
        ensures
            r matches Some(p) ==> self.database.url@ == "sqlite://"@ + p@,
            r is None ==> !(self.database.url@.len() >= 9 && self.database.url@.subrange(0, 9) == "sqlite://"@),
    {
        let url = self.database.url.as_str();
        let prefix = "sqlite://";
        proof {
            reveal_strlit("sqlite://");
        }
        let n = url.unicode_len();
        if n < 9 {
            return None;
        }
        let mut i: usize = 0;
        while i < 9
            invariant
                n == url@.len(),
                url@ == self.database.url@,
                n >= 9,
                prefix@ == "sqlite://"@,
                prefix@.len() == 9,
                i <= 9,
                forall|k: int| 0 <= k < i ==> url@[k] == prefix@[k],
            decreases 9 - i,
        {
            if url.get_char(i) != prefix.get_char(i) {
                assert(url@.subrange(0, 9)[i as int] != prefix@[i as int]);
                assert(url@.subrange(0, 9) != prefix@);
                return None;
            }
            i = i + 1;
        }
        let rest = String::from_str(url.substring_char(9, n));
        assert(url@.subrange(0, 9) =~= prefix@);
        assert(url@ =~= prefix@ + rest@);
        Some(rest)
    }
}

} // verus!
