//! Process configuration: the token secret and the document store's address.
use vstd::prelude::*;

verus! {

/// Settings of the token service.
pub struct Auth {
    pub secret: Option<String>,
}

/// Settings of the document store.
pub struct Mongo {
    pub uri: Option<String>,
    pub db: Option<String>,
}

/// The whole configuration; every part of it may be left out.
pub struct Config {
    pub auth: Option<Auth>,
    pub mongodb: Option<Mongo>,
}

/// The view of an optional string.
pub open spec fn opt_view(o: Option<String>) -> Option<Seq<char>> {
    match o {
        Some(s) => Some(s@),
        None => None,
    }
}

impl Config {
    /// The configured token secret.
    pub open spec fn secret_spec(&self) -> Option<Seq<char>> {
        match self.auth {
            Some(a) => opt_view(a.secret),
            None => None,
        }
    }

    /// The configured store address.
    pub open spec fn uri_spec(&self) -> Option<Seq<char>> {
        match self.mongodb {
            Some(m) => opt_view(m.uri),
            None => None,
        }
    }

    /// The configured database name.
    pub open spec fn db_spec(&self) -> Option<Seq<char>> {
        match self.mongodb {
            Some(m) => opt_view(m.db),
            None => None,
        }
    }

    /// The token secret, if both the section and the key are present.
    pub fn get_secret(&self) -> (r: Option<String>)
        ensures
            opt_view(r) == self.secret_spec(),
    {
        match &self.auth {
            Some(a) => match &a.secret {
                Some(secret) => Some(secret.clone()),
                None => None,
            },
            None => None,
        }
    }

    /// The store address, if both the section and the key are present.
    pub fn mongo_uri(&self) -> (r: Option<String>)
        ensures
            opt_view(r) == self.uri_spec(),
    {
        match &self.mongodb {
            Some(mongo) => match &mongo.uri {
                Some(u) => Some(u.clone()),
                None => None,
            },
            None => None,
        }
    }

    /// The database name, if both the section and the key are present.
    pub fn mongo_db(&self) -> (r: Option<String>)
        ensures
            opt_view(r) == self.db_spec(),
    {
        match &self.mongodb {
            Some(mongo) => match &mongo.db {
                Some(db) => Some(db.clone()),
                None => None,
            },
            None => None,
        }
    }
}

} // verus!
