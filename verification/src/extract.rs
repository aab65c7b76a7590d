//! Plain text out of an EPUB archive.
//!
//! Every resource of the archive that reads as text has its markup tags
//! removed and is added to the result, in the archive's order. Resources that
//! do not read as text, such as images, are passed over: that is no failure.

use vstd::prelude::*;
use crate::markup::{strip_xml_tags, without_tags};
use crate::outside::{archive_error_text, epub_resources, read_epub_resources};

verus! {

/// A file could not be decoded.
#[derive(Debug, Clone, PartialEq, Eq)]
pub struct ExtractionError {
    /// The file that was being read.
    pub filename: String,
    /// What the decoder said.
    pub cause: String,
}

/// The text of a list of resources: the resources that are text, without
/// their tags, put end to end.
pub open spec fn resources_text(resources: Seq<Option<Seq<char>>>) -> Seq<char>
    decreases resources.len(),
{
    if resources.len() == 0 {
        Seq::empty()
    } else {
        let head = resources_text(resources.drop_last());
        match resources.last() {
            Some(text) => head + without_tags(text),
            None => head,
        }
    }
}

/// The text of a list of resources, `None` standing for a resource that is no
/// text.
pub fn join_resources(resources: &Vec<Option<String>>) -> (out: String)
    ensures
        out@ == resources_text(resources.deep_view()),
{
    let mut out = String::new();
    let ghost all = resources.deep_view();
    let mut i: usize = 0;
    while i < resources.len()
        invariant
            i <= resources.len(),
            all == resources.deep_view(),
            out@ == resources_text(all.take(i as int)),
        decreases resources.len() - i,
    {
        proof {
            let upto = all.take(i as int + 1);
            assert(upto.drop_last() =~= all.take(i as int));
        }
        match &resources[i] {
            Some(content) => {
                let stripped = strip_xml_tags(content.as_str());
                out.append(stripped.as_str());
            },
            None => {},
        }
        i += 1;
    }
    assert(all.take(i as int) =~= all);
    out
}

/// The plain text of the EPUB archive held in `data`, which was read from the
/// file `file_name`. Fails exactly when `data` cannot be opened as an archive.
pub fn collect_resources_into_string(file_name: &str, data: &[u8]) -> (out: Result<
    String,
    ExtractionError,
>)
    ensures
        match out {
            Ok(text) => epub_resources(data@) matches Some(resources) && text@ == resources_text(
                resources,
            ),
            Err(error) => epub_resources(data@) is None && error.filename@ == file_name@,
        },
{
    match read_epub_resources(data) {
        Ok(resources) => Ok(join_resources(&resources)),
        Err(error) => Err(
            ExtractionError { filename: file_name.to_owned(), cause: archive_error_text(&error) },
        ),
    }
}

} // verus!
