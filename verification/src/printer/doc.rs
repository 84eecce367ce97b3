//! Documents for the pretty-printer, and their layout.
//!
//! A document is a value of the `pretty` crate. What a document holds is
//! modelled by `DocModel`; its layout at a given width is the crate's own
//! and is only named here.

use vstd::prelude::*;
use pretty::RcDoc;

verus! {

#[verifier::external_type_specification]
#[verifier::external_body]
#[verifier::reject_recursive_types(A)]
pub struct ExRcDoc<'a, A>(RcDoc<'a, A>);

/// What a document holds.
pub enum DocModel {
    /// The empty document.
    Nil,
    /// A text without line breaks.
    Text(Seq<char>),
    /// A line break that is a space where its group fits on one line.
    Line,
    /// A line break.
    Hardline,
    /// One document after the other.
    Append(Box<DocModel>, Box<DocModel>),
    /// A document whose line breaks are followed by that many more spaces.
    Nest(int, Box<DocModel>),
    /// A document that is laid out on one line where it fits.
    Group(Box<DocModel>),
    /// The first document where it fits, else the second.
    Union(Box<DocModel>, Box<DocModel>),
}

/// What a document holds.
pub uninterp spec fn doc_of(d: RcDoc<'static, ()>) -> DocModel;

/// The layout of a document at a page width.
pub uninterp spec fn rendered(d: DocModel, width: nat) -> Seq<char>;

/// The document of a text: the empty document for the empty text.
pub open spec fn doc_text(s: Seq<char>) -> DocModel {
    if s.len() == 0 {
        DocModel::Nil
    } else {
        DocModel::Text(s)
    }
}

/// One document after the other; the empty document adds nothing.
pub open spec fn doc_append(a: DocModel, b: DocModel) -> DocModel {
    if a is Nil {
        b
    } else if b is Nil {
        a
    } else {
        DocModel::Append(Box::new(a), Box::new(b))
    }
}

/// Whether every character of a text is in ASCII.
pub open spec fn ascii_text(s: Seq<char>) -> bool {
    forall|i: int| 0 <= i < s.len() ==> #[trigger] s[i] <= '\x7f'
}

/// A document as a group; a group, a text in ASCII and the empty document
/// stay as they are. A text beyond ASCII is kept with its display width
/// around it, and so becomes a group like any other document.
pub open spec fn doc_group(a: DocModel) -> DocModel {
    if a is Group || a is Nil || (a matches DocModel::Text(s) && ascii_text(s)) {
        a
    } else {
        DocModel::Group(Box::new(a))
    }
}

/// A document nested by `offset`; the empty document and an offset of zero
/// change nothing.
pub open spec fn doc_nest(a: DocModel, offset: int) -> DocModel {
    if a is Nil || offset == 0 {
        a
    } else {
        DocModel::Nest(offset, Box::new(a))
    }
}

/// Two alternative documents.
pub open spec fn doc_union(a: DocModel, b: DocModel) -> DocModel {
    DocModel::Union(Box::new(a), Box::new(b))
}

/// The documents of a list with `sep` between each two, appended from the
/// left.
pub open spec fn doc_intersperse(docs: Seq<DocModel>, sep: DocModel) -> DocModel
    decreases docs.len(),
{
    if docs.len() == 0 {
        DocModel::Nil
    } else if docs.len() == 1 {
        doc_append(DocModel::Nil, docs[0])
    } else {
        doc_append(doc_append(doc_intersperse(docs.drop_last(), sep), sep), docs.last())
    }
}

/// What the documents of a list hold.
pub open spec fn docs_of(docs: Seq<RcDoc<'static, ()>>) -> Seq<DocModel> {
    Seq::new(docs.len(), |i: int| doc_of(docs[i]))
}

/// `RcDoc::text`: the document of a text, which is the empty document for
/// the empty text.
#[verifier::external_body]
pub(crate) fn rc_text(s: String) -> (d: RcDoc<'static, ()>)
    ensures
        doc_of(d) == doc_text(s@),
{
    RcDoc::text(s)
}

/// `RcDoc::line`: a line break that is a space on one line.
#[verifier::external_body]
pub(crate) fn rc_line() -> (d: RcDoc<'static, ()>)
    ensures
        doc_of(d) == DocModel::Line,
{
    RcDoc::line()
}

/// `RcDoc::hardline`: a line break.
#[verifier::external_body]
pub(crate) fn rc_hardline() -> (d: RcDoc<'static, ()>)
    ensures
        doc_of(d) == DocModel::Hardline,
{
    RcDoc::hardline()
}

/// `RcDoc::append`: `b` behind `a`, where an empty side gives the other
/// side back.
#[verifier::external_body]
pub(crate) fn rc_append(a: RcDoc<'static, ()>, b: RcDoc<'static, ()>) -> (d: RcDoc<'static, ()>)
    ensures
        doc_of(d) == doc_append(doc_of(a), doc_of(b)),
{
    a.append(b)
}

/// `RcDoc::group`: marks a document as a group, and gives a group, a bare
/// text and the empty document back as they are. `RcDoc::text` keeps a
/// text bare only where it is in ASCII.
#[verifier::external_body]
pub(crate) fn rc_group(a: RcDoc<'static, ()>) -> (d: RcDoc<'static, ()>)
    ensures
        doc_of(d) == doc_group(doc_of(a)),
{
    a.group()
}

/// `RcDoc::nest`: raises the indentation of a document, and gives the
/// empty document, or any document for the offset zero, back as it is.
#[verifier::external_body]
pub(crate) fn rc_nest(a: RcDoc<'static, ()>, offset: isize) -> (d: RcDoc<'static, ()>)
    ensures
        doc_of(d) == doc_nest(doc_of(a), offset as int),
{
    a.nest(offset)
}

/// `RcDoc::union`: two alternative documents.
#[verifier::external_body]
pub(crate) fn rc_union(a: RcDoc<'static, ()>, b: RcDoc<'static, ()>) -> (d: RcDoc<'static, ()>)
    ensures
        doc_of(d) == doc_union(doc_of(a), doc_of(b)),
{
    a.union(b)
}

/// `RcDoc::intersperse`: starts from the empty document and appends the
/// documents one by one, with a copy of the separator before each but the
/// first.
#[verifier::external_body]
pub(crate) fn rc_intersperse(docs: Vec<RcDoc<'static, ()>>, sep: RcDoc<'static, ()>) -> (d: RcDoc<
    'static,
    (),
>)
    ensures
        doc_of(d) == doc_intersperse(docs_of(docs@), doc_of(sep)),
{
    RcDoc::intersperse(docs, sep)
}

/// `RcDoc::clone`: another pointer to the same document.
#[verifier::external_body]
pub(crate) fn rc_clone(a: &RcDoc<'static, ()>) -> (d: RcDoc<'static, ()>)
    ensures
        doc_of(d) == doc_of(*a),
{
    a.clone()
}

/// `Doc::render` into a string: the layout of the document at the width,
/// which depends on nothing but what the document holds and the width.
#[verifier::external_body]
pub(crate) fn rc_render(a: &RcDoc<'static, ()>, width: usize) -> (s: String)
    ensures
        s@ == rendered(doc_of(*a), width as nat),
{
    let mut out = Vec::new();
    let _ = a.render(width, &mut out);
    String::from_utf8_lossy(&out).into_owned()
}

} // verus!
