//! Persistence of the bottle catalog: one document under a
//! caller-chosen base directory.
//!
//! The host layer reads and writes `<base>/bottles.json`; this module
//! computes the document's text and decodes it.  A missing catalog
//! file is the empty catalog, not an error; an undecodable one is an
//! `Io`-kind error.

use vstd::prelude::*;
use crate::bottle::Bottle;
use crate::bottle::bottles_view;
use crate::error::Error;
use crate::json::enc_catalog;
use crate::json::enc_catalog_exec;
use crate::json::parse_catalog;
use crate::json::parse_catalog_exec;
use crate::text::chars_vec;
use crate::text::join_path;
use crate::text::join_path_exec;
use crate::text::string_of_chars;
use vstd::string::StringExecFns;

verus! {

/// Manager of the catalog document under one base directory.  The
/// base directory may not exist yet; the host layer creates it when a
/// catalog is first saved.
pub struct Persistence {
    /// The directory that holds the catalog document.
    pub base_path: String,
}

impl Persistence {
    /// A persistence manager for the given base directory.
    pub fn new(base_path: String) -> (r: Self)
        ensures
            r.base_path@ == base_path@,
    {
        Persistence { base_path }
    }

    /// The path of the catalog document under the base directory.
    pub fn index_file(&self) -> (r: String)
        ensures
            r@ == join_path(self.base_path@, "bottles.json"@),
    {
        let rel = String::from_str("bottles.json");
        join_path_exec(&self.base_path, &rel)
    }

    /// The text of the catalog document describing the given bottles.
    /// The host layer writes it to the index file, replacing any prior
    /// document.
    pub fn render_bottles(bottles: &Vec<Bottle>) -> (r: String)
        ensures
            r@ == enc_catalog(bottles_view(bottles@)),
    {
        let chars = enc_catalog_exec(bottles);
        string_of_chars(&chars)
    }

    /// The bottles described by the catalog document's contents.  An
    /// absent document is the empty catalog; a document that does not
    /// parse is an `Io`-kind error.
    pub fn decode_bottles(content: &Option<String>) -> (r: Result<Vec<Bottle>, Error>)
        ensures
            content is None ==> (r matches Ok(v) && v@.len() == 0),
            content matches Some(text) ==> (match parse_catalog(text@) {
                Some(views) => r matches Ok(v) && bottles_view(v@) == views,
                None => r matches Err(e) && e is Io,
            }),
    {
        match content {
            None => Ok(Vec::new()),
            Some(text) => {
                let cs = chars_vec(text.as_str());
                match parse_catalog_exec(&cs) {
                    Some(bottles) => Ok(bottles),
                    None => Err(
                        Error::Io { message: String::from_str("could not decode the bottle catalog") },
                    ),
                }
            },
        }
    }
}

} // verus!
