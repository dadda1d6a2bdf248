//! The document session: the one open document's text and its latest index,
//! replaced as a whole on every change and read by every lookup.
use vstd::prelude::*;
use crate::index::{index_of, locations_view, parse, Error};
use crate::references::references_seq_view;
use crate::resolver::{
    completes_at, completion_applies, definitions_at, detect_template_language, goto_definition, language_of,
    path_extension, resource_type_at, resource_type_under_cursor,
};
use crate::types::{Location, Position, Targets};

verus! {

/// The open document, if any, and the index of its last text that parsed.
pub struct Session {
    pub text: Option<String>,
    pub index: Targets,
}

/// The index of a session, as views.
pub open spec fn index_view(index: Targets) -> (Seq<(Seq<char>, crate::types::Range)>, Seq<(crate::types::ReferenceKind, Seq<char>, crate::types::Range)>) {
    (locations_view(index.destinations@), references_seq_view(index.sources@))
}

impl Session {
    /// A session with no document and an empty index.
    pub fn new() -> (r: Session)
        ensures
            r.text is None,
            r.index.destinations@.len() == 0,
            r.index.sources@.len() == 0,
    {
        Session { text: None, index: Targets { destinations: Vec::new(), sources: Vec::new() } }
    }

    /// Takes `text` as the document's whole new text and rebuilds the index
    /// from it. Where the text cannot be parsed, the previous index stays and
    /// the error is returned.
    pub fn set_text(&mut self, text: String) -> (r: Result<(), Error>)
        ensures
            final(self).text matches Some(t) && t@ == text@,
            r is Ok <==> index_of(text@) is Some,
            r is Ok ==> index_of(text@) == Some(index_view(final(self).index)),
            r is Err ==> final(self).index == old(self).index,
    {
        let result = parse(text.as_str());
        self.text = Some(text);
        match result {
            Ok(index) => {
                self.index = index;
                Ok(())
            },
            Err(e) => Err(e),
        }
    }

    /// Goto-definition at `cursor`: every definition site named by the word
    /// there; empty where there is no document or no such word.
    pub fn goto_definition(&self, cursor: Position) -> (r: Vec<Location>)
        ensures
            self.text matches Some(t) ==> locations_view(r@) == definitions_at(
                t@,
                locations_view(self.index.destinations@),
                cursor,
            ),
            self.text is None ==> r@.len() == 0,
    {
        match &self.text {
            Some(t) => goto_definition(t.as_str(), &self.index, cursor),
            None => Vec::new(),
        }
    }

    /// The resource type name under `position`, for hover.
    pub fn resource_type_at(&self, position: Position) -> (r: Option<String>)
        ensures
            self.text matches Some(t) ==> match r {
                Some(s) => resource_type_at(t@, position) == Some(s@),
                None => resource_type_at(t@, position) is None,
            },
            self.text is None ==> r is None,
    {
        match &self.text {
            Some(t) => resource_type_under_cursor(t.as_str(), position),
            None => None,
        }
    }

    /// Whether resource type completions are offered at `position` of the
    /// document, whose file is `filename`.
    pub fn completion_applies(&self, filename: &str, position: Position) -> (r: bool)
        ensures
            self.text matches Some(t) ==> r == completes_at(
                t@,
                language_of(path_extension(filename@), t@),
                position,
            ),
            self.text is None ==> !r,
    {
        match &self.text {
            Some(t) => {
                let language = detect_template_language(filename, t.as_str());
                completion_applies(t.as_str(), language, position)
            },
            None => false,
        }
    }
}

} // verus!
