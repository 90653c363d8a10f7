//! Content in one of the two modes, bytes or characters, and the pipeline's
//! steps on it. The mode is chosen once, when the source is read.

use crate::chance::Chance;
use crate::insertion::{inserts, lemma_insertions_never_shrink, placements_fit, with_insertions};
use crate::pipeline::{
    completes, completes_text, finish_bytes, finish_text, lemma_shrinks_bounds,
    lemma_unspliced_never_grows, process_single_general, shrinks, shrinks_with,
};
use crate::splice::{lossy_text, splice_bytes, splice_text};
use rand::rngs::StdRng;
use vstd::prelude::*;

verus! {

/// The content of a file or of a copy.
#[derive(Debug)]
pub enum Content {
    /// Raw bytes.
    Bytes(Vec<u8>),
    /// The characters of a text.
    Text(Vec<char>),
}

/// What a `Content` holds.
pub enum ContentView {
    Bytes(Seq<u8>),
    Text(Seq<char>),
}

impl View for Content {
    type V = ContentView;

    open spec fn view(&self) -> ContentView {
        match self {
            Content::Bytes(bytes) => ContentView::Bytes(bytes@),
            Content::Text(chars) => ContentView::Text(chars@),
        }
    }
}

impl ContentView {
    /// The number of units.
    pub open spec fn len(self) -> nat {
        match self {
            ContentView::Bytes(bytes) => bytes.len(),
            ContentView::Text(chars) => chars.len(),
        }
    }

    /// The content with `donated` behind it; text takes the bytes as
    /// `String::from_utf8_lossy` decodes them.
    pub open spec fn with_donation(self, donated: Seq<u8>) -> ContentView {
        match self {
            ContentView::Bytes(bytes) => ContentView::Bytes(bytes + donated),
            ContentView::Text(chars) => ContentView::Text(chars + lossy_text(donated)),
        }
    }

    /// `out` is what the shrinking steps can make of this content, in the
    /// same mode.
    pub open spec fn shrinks_to(self, out: ContentView) -> bool {
        match (self, out) {
            (ContentView::Bytes(source), ContentView::Bytes(shrunk)) => shrinks(source, shrunk),
            (ContentView::Text(source), ContentView::Text(shrunk)) => shrinks(source, shrunk),
            _ => false,
        }
    }

    /// `out` is what the shrinking steps can make of this content when they
    /// run with the chances `truncate` and `delete`, in the same mode.
    pub open spec fn shrinks_to_with(
        self,
        out: ContentView,
        truncate: Chance,
        delete: Chance,
    ) -> bool {
        match (self, out) {
            (ContentView::Bytes(source), ContentView::Bytes(shrunk)) => shrinks_with(
                source,
                shrunk,
                truncate,
                delete,
            ),
            (ContentView::Text(source), ContentView::Text(shrunk)) => shrinks_with(
                source,
                shrunk,
                truncate,
                delete,
            ),
            _ => false,
        }
    }

    /// `out` is what the last steps can make of this content, in the same
    /// mode: replacing, and for text the insertion of `words`.
    pub open spec fn finishes_as(self, words: Seq<Seq<char>>, out: ContentView) -> bool {
        match (self, out) {
            (ContentView::Bytes(data), ContentView::Bytes(done)) => completes(data, done),
            (ContentView::Text(data), ContentView::Text(done)) => completes_text(data, words, done),
            _ => false,
        }
    }
}

impl Content {
    /// Whether the content is made of characters.
    pub fn is_text(&self) -> (text: bool)
        ensures
            text == (self@ is Text),
    {
        match self {
            Content::Bytes(_) => false,
            Content::Text(_) => true,
        }
    }

    /// The shrinking steps on a private copy, with the chances `truncate`
    /// and `delete`. `None` says that the copy is given up: the content was
    /// empty, or the truncation left nothing. Content that is not empty
    /// always gives a copy where truncation is impossible, and content of
    /// one unit never does where it is certain.
    pub fn shrunk(&self, rng: &mut StdRng, truncate: Chance, delete: Chance) -> (out: Option<
        Content,
    >)
        ensures
            self@.len() == 0 ==> out is None,
            self@.len() > 0 && truncate.impossible() ==> out is Some,
            self@.len() == 1 && truncate.certain() ==> out is None,
            out matches Some(shrunk) ==> self@.shrinks_to_with(shrunk@, truncate, delete),
            out matches Some(shrunk) ==> self@.shrinks_to(shrunk@),
    {
        match self {
            Content::Bytes(bytes) => {
                match process_single_general(rng, truncate, delete, bytes.as_slice()) {
                    Some(data) => Some(Content::Bytes(data)),
                    None => None,
                }
            },
            Content::Text(chars) => {
                match process_single_general(rng, truncate, delete, chars.as_slice()) {
                    Some(data) => Some(Content::Text(data)),
                    None => None,
                }
            },
        }
    }

    /// The content with what the donors gave behind it.
    pub fn spliced(self, parts: &Vec<Vec<u8>>) -> (out: Content)
        ensures
            out@ == self@.with_donation(parts.deep_view().flatten()),
    {
        match self {
            Content::Bytes(bytes) => {
                let mut bytes = bytes;
                splice_bytes(&mut bytes, parts);
                Content::Bytes(bytes)
            },
            Content::Text(chars) => {
                let mut chars = chars;
                splice_text(&mut chars, parts);
                Content::Text(chars)
            },
        }
    }

    /// The last steps: replace, and for text insert `words` where there are
    /// any.
    pub fn finished(self, rng: &mut StdRng, words: &[String]) -> (out: Content)
        requires
            self@.len() > 0,
        ensures
            self@.finishes_as(words.deep_view(), out@),
    {
        match self {
            Content::Bytes(bytes) => {
                let mut bytes = bytes;
                finish_bytes(rng, &mut bytes);
                Content::Bytes(bytes)
            },
            Content::Text(chars) => {
                let mut chars = chars;
                finish_text(rng, &mut chars, words);
                Content::Text(chars)
            },
        }
    }
}

/// The last steps never shorten content: replacing keeps the length and
/// inserting adds to it.
pub proof fn lemma_finishing_never_shrinks(data: ContentView, words: Seq<Seq<char>>, out: ContentView)
    requires
        data.finishes_as(words, out),
    ensures
        out.len() >= data.len(),
{
    match (data, out) {
        (ContentView::Text(chars), ContentView::Text(done)) => {
            let replaced = choose|replaced: Seq<char>|
                {
                    &&& #[trigger] completes(chars, replaced)
                    &&& done == replaced || (words.len() > 0 && exists|count: int|
                        1 <= count < 5 && #[trigger] inserts(replaced, done, words, count))
                };
            if done != replaced {
                let count = choose|count: int|
                    1 <= count < 5 && #[trigger] inserts(replaced, done, words, count);
                let placements = choose|placements: Seq<(int, Seq<char>)>|
                    {
                        &&& placements.len() == count
                        &&& placements_fit(replaced, placements, words)
                        &&& done == #[trigger] with_insertions(replaced, placements)
                    };
                lemma_insertions_never_shrink(replaced, placements, words);
            }
        },
        _ => {},
    }
}

/// What the shrinking steps hand on is not empty and no longer than the
/// source.
pub proof fn lemma_shrinks_to_bounds(source: ContentView, out: ContentView)
    requires
        source.shrinks_to(out),
    ensures
        0 < out.len() <= source.len(),
{
    match (source, out) {
        (ContentView::Bytes(bytes), ContentView::Bytes(shrunk)) => {
            lemma_shrinks_bounds(bytes, shrunk);
        },
        (ContentView::Text(chars), ContentView::Text(shrunk)) => {
            lemma_shrinks_bounds(chars, shrunk);
        },
        _ => {},
    }
}

/// A copy with nothing spliced in and no word inserted is never longer than
/// its source, and never empty. That holds of every copy made of bytes and
/// of every copy made of characters where there are no words.
pub proof fn lemma_plain_copy_never_grows(
    source: ContentView,
    shrunk: ContentView,
    words: Seq<Seq<char>>,
    out: ContentView,
)
    requires
        source.shrinks_to(shrunk),
        shrunk.finishes_as(words, out),
        source is Bytes || words.len() == 0,
    ensures
        0 < out.len() <= source.len(),
{
    match (source, shrunk, out) {
        (ContentView::Bytes(bytes), ContentView::Bytes(data), ContentView::Bytes(done)) => {
            lemma_unspliced_never_grows(bytes, data, done);
        },
        (ContentView::Text(chars), ContentView::Text(data), ContentView::Text(done)) => {
            lemma_unspliced_never_grows(chars, data, done);
        },
        _ => {},
    }
}

} // verus!
