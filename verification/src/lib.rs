//! Canonical lockfile text for a resolved dependency graph.
//!
//! The crate turns a resolver's dependency graph into a byte-stable,
//! human-diffable lockfile text and back.  The write path encodes the graph
//! into a generic document, then prints it with a canonical emitter that fixes
//! the key order per package; the read path parses lockfile text with the
//! `toml` crate and decodes the resulting document into a graph.

#![allow(unused_imports)]

use vstd::prelude::*;

pub mod codec;
pub mod document;
pub mod emit;
pub mod resolve;
pub mod toml_text;

verus! {

/// Why a lockfile's text does not load.
#[derive(Debug, Clone, PartialEq, Eq)]
pub enum LoadError {
    /// The text is not well-formed; the message is the parser's.
    Parse(String),
    /// The parsed document does not have the lockfile shape.
    Decode(codec::DecodeError),
}

/// Turns the contents of a lockfile into the graph it records, anchored to
/// the caller's source identity.  An absent file (`None`) is no error: it
/// loads as no graph at all, and only as that.  Present contents parse as
/// `parsed_of` the text: a rejected text comes back as `Parse` with the
/// parser's message, and a parsed document decodes exactly as the model
/// decode says, graph or error.
pub fn resolve_from_contents(contents: Option<String>, source_id: &str) -> (r: Result<
    Option<resolve::Resolve>,
    LoadError,
>)
    ensures
        contents is None ==> (r matches Ok(o) && o is None),
        (r matches Ok(o) && o is None) ==> contents is None,
        contents matches Some(text) ==> (match toml_text::parsed_of(text@) {
            Ok(doc) => match r {
                Ok(o) => o matches Some(res) && codec::decode_resolve_model(doc, source_id@)
                    == Ok::<resolve::ResolveV, codec::DecodeError>(res@),
                Err(le) => le matches LoadError::Decode(e) && codec::decode_resolve_model(
                    doc,
                    source_id@,
                ) == Err::<resolve::ResolveV, codec::DecodeError>(e),
            },
            Err(m) => r matches Err(le) && le matches LoadError::Parse(msg) && msg@ == m,
        }),
{
    let text = match contents {
        Option::Some(t) => t,
        Option::None => { return Ok(Option::None) },
    };
    match toml_text::parse_document(text.as_str()) {
        Ok(doc) => match codec::decode_resolve(&doc, source_id) {
            Ok(res) => Ok(Option::Some(res)),
            Err(e) => Err(LoadError::Decode(e)),
        },
        Err(msg) => Err(LoadError::Parse(msg)),
    }
}

/// Renders a resolved graph as canonical lockfile text, ready to be written
/// to disk whole.
pub fn lockfile_contents(graph: &resolve::Resolve) -> (out: String)
    ensures
        out@ == emit::emitted_lockfile(codec::encode_resolve_model(graph@)),
{
    let doc = codec::encode_resolve(graph);
    proof {
        emit::lemma_encode_doc_wf(graph@);
    }
    emit::emit_lockfile(&doc)
}

/// Saving is idempotent: any two renderings of the same graph are identical,
/// character for character.
pub proof fn lemma_save_idempotent(r: resolve::ResolveV, out1: Seq<char>, out2: Seq<char>)
    requires
        out1 == emit::emitted_lockfile(codec::encode_resolve_model(r)),
        out2 == emit::emitted_lockfile(codec::encode_resolve_model(r)),
    ensures
        out1 == out2,
{
}

} // verus!
