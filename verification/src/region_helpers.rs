use crate::json::{as_text, text_of, Json, JsonView};
use crate::text::{chars_of, stands_at};
use vstd::prelude::*;
use vstd::string::{StrSliceExecFns, StringExecFns};

verus! {

/// The least index from `from` on at which `pat` stands in `text`.
pub open spec fn first_occurrence_from(text: Seq<char>, pat: Seq<char>, from: int) -> Option<int>
    decreases text.len() - from + 1,
{
    if from < 0 || from + pat.len() > text.len() {
        None
    } else if text.subrange(from, from + pat.len()) == pat {
        Some(from)
    } else {
        first_occurrence_from(text, pat, from + 1)
    }
}

/// `text` cut at the first place where `pat` stands in it: what is before that
/// place, and what follows the occurrence. Nothing where `pat` is not in `text`.
pub open spec fn split_first(text: Seq<char>, pat: Seq<char>) -> Option<(Seq<char>, Seq<char>)> {
    match first_occurrence_from(text, pat, 0) {
        Some(i) => Some((text.take(i), text.skip(i + pat.len()))),
        None => None,
    }
}

/// The parts of `text` before and after the first place where `pat` stands in
/// it, or nothing where it stands nowhere.
pub fn split_once<'a>(text: &'a str, pat: &str) -> (r: Option<(&'a str, &'a str)>)
    ensures
        match r {
            Some((before, after)) => split_first(text@, pat@) == Some((before@, after@)),
            None => split_first(text@, pat@) is None,
        },
{
    let t = chars_of(text);
    let p = chars_of(pat);
    let n = t.len();
    let m = p.len();
    let mut i: usize = 0;
    while m <= n - i
        invariant
            n == t.len(),
            m == p.len(),
            t@ == text@,
            p@ == pat@,
            i <= n,
            first_occurrence_from(t@, p@, 0) == first_occurrence_from(t@, p@, i as int),
        decreases n - i,
    {
        if stands_at(&t, &p, i) {
            proof {
                assert(t@.take(i as int) =~= t@.subrange(0, i as int));
                assert(t@.skip(i + m) =~= t@.subrange(i + m, n as int));
            }
            return Some((text.substring_char(0, i), text.substring_char(i + m, n)));
        }
        if i == n {
            assert(t@.subrange(i as int, i + m) =~= p@);
            return None;
        }
        i += 1;
    }
    None
}

/// What surrounds the new content of a section: the text up to the place where
/// the content goes, and the text from there on.
pub struct Frame {
    pub head: String,
    pub tail: String,
}

/// The frame that `input` gives for the section between the first `begin` and
/// the first `end` after it. The boundaries stay unless `remove_boundaries`.
pub open spec fn frame_of(
    input: Seq<char>,
    begin: Seq<char>,
    end: Seq<char>,
    remove_boundaries: bool,
) -> Option<(Seq<char>, Seq<char>)> {
    match split_first(input, begin) {
        None => None,
        Some((before, inner)) => match split_first(inner, end) {
            None => None,
            Some((_, after)) => if remove_boundaries {
                Some((before, after))
            } else {
                Some((before + begin, end + after))
            },
        },
    }
}

/// The frame that the helper's arguments give, if they give one: a template
/// must be there, `input`, `begin` and `end` must be strings, and both
/// boundaries must stand in `input`, `end` after `begin`.
/// `remove_boundaries` counts as `false` unless it is the boolean `true`.
pub open spec fn section_frame(
    has_template: bool,
    input: Option<&Json>,
    begin: Option<&Json>,
    end: Option<&Json>,
    remove_boundaries: Option<&Json>,
) -> Option<(Seq<char>, Seq<char>)> {
    if has_template && text_of(input) is Some && text_of(begin) is Some && text_of(end) is Some {
        frame_of(
            text_of(input)->0,
            text_of(begin)->0,
            text_of(end)->0,
            remove_boundaries is Some && remove_boundaries->0@ == JsonView::Bool(true),
        )
    } else {
        None
    }
}

/// Replaces the section of a text that lies between two boundaries.
#[derive(Clone, Copy)]
pub struct ReplaceSectionHelper;

impl ReplaceSectionHelper {
    /// Says what to write around the rendered template, or nothing where the
    /// arguments name no section; then nothing at all is to be written.
    pub fn call(
        &self,
        has_template: bool,
        input: Option<&Json>,
        begin: Option<&Json>,
        end: Option<&Json>,
        remove_boundaries: Option<&Json>,
    ) -> (r: Option<Frame>)
        ensures
            match r {
                Some(f) => section_frame(has_template, input, begin, end, remove_boundaries)
                    == Some((f.head@, f.tail@)),
                None => section_frame(has_template, input, begin, end, remove_boundaries) is None,
            },
    {
        if !has_template {
            return None;
        }
        let Some(input) = as_text(input) else {
            return None;
        };
        let remove = match remove_boundaries {
            Some(v) => match v.as_bool() {
                Some(b) => b,
                None => false,
            },
            None => false,
        };
        let Some(begin) = as_text(begin) else {
            return None;
        };
        let Some((before, inner)) = split_once(input, begin) else {
            return None;
        };
        let Some(end) = as_text(end) else {
            return None;
        };
        let Some((_, after)) = split_once(inner, end) else {
            return None;
        };
        let mut head = String::from_str(before);
        let mut tail = String::new();
        if !remove {
            head.append(begin);
            tail.append(end);
        }
        tail.append(after);
        assert(tail@ =~= if remove { after@ } else { end@ + after@ });
        Some(Frame { head, tail })
    }
}

/// What [`first_occurrence_from`] finds is the least place from `from` on at
/// which `pat` stands in `text`; it finds nothing only where there is none.
pub proof fn lemma_first_occurrence(text: Seq<char>, pat: Seq<char>, from: int)
    requires
        0 <= from,
    ensures
        match first_occurrence_from(text, pat, from) {
            Some(i) => from <= i && i + pat.len() <= text.len() && text.subrange(
                i,
                i + pat.len(),
            ) == pat && forall|j: int|
                from <= j < i ==> #[trigger] text.subrange(j, j + pat.len()) != pat,
            None => forall|j: int|
                from <= j && j + pat.len() <= text.len() ==> #[trigger] text.subrange(
                    j,
                    j + pat.len(),
                ) != pat,
        },
    decreases text.len() - from + 1,
{
    if from + pat.len() <= text.len() && text.subrange(from, from + pat.len()) != pat {
        lemma_first_occurrence(text, pat, from + 1);
    }
}

/// A text that [`split_first`] cuts is the part before, the pattern and the
/// part after, one behind the other, and the pattern stands nowhere earlier;
/// a text that it does not cut holds the pattern nowhere.
pub proof fn lemma_split_first(text: Seq<char>, pat: Seq<char>)
    ensures
        match split_first(text, pat) {
            Some((before, after)) => text == before + pat + after && forall|j: int|
                0 <= j < before.len() ==> #[trigger] text.subrange(j, j + pat.len()) != pat,
            None => forall|j: int|
                0 <= j && j + pat.len() <= text.len() ==> #[trigger] text.subrange(
                    j,
                    j + pat.len(),
                ) != pat,
        },
{
    lemma_first_occurrence(text, pat, 0);
    match first_occurrence_from(text, pat, 0) {
        Some(i) => {
            assert(text =~= text.take(i) + text.subrange(i, i + pat.len()) + text.skip(
                i + pat.len(),
            ));
        },
        None => {},
    }
}

/// The frame leaves the input as it is outside the section: with the old
/// content of the section put back between head and tail, and the boundaries
/// too where they were removed, the input comes out again.
pub proof fn lemma_frame_keeps_input(
    input: Seq<char>,
    begin: Seq<char>,
    end: Seq<char>,
    remove_boundaries: bool,
)
    ensures
        match frame_of(input, begin, end, remove_boundaries) {
            Some((head, tail)) => exists|content: Seq<char>|
                input == #[trigger] framed(head, content, tail, begin, end, remove_boundaries),
            None => true,
        },
{
    lemma_split_first(input, begin);
    match split_first(input, begin) {
        None => {},
        Some((before, inner)) => {
            lemma_split_first(inner, end);
            match split_first(inner, end) {
                None => {},
                Some((content, after)) => {
                    let (head, tail) = frame_of(input, begin, end, remove_boundaries)->0;
                    assert(input =~= framed(head, content, tail, begin, end, remove_boundaries));
                },
            }
        },
    }
}

/// A text made of a frame and a content: head, content and tail, with the
/// boundaries around the content where the frame came without them.
pub open spec fn framed(
    head: Seq<char>,
    content: Seq<char>,
    tail: Seq<char>,
    begin: Seq<char>,
    end: Seq<char>,
    remove_boundaries: bool,
) -> Seq<char> {
    if remove_boundaries {
        head + begin + content + end + tail
    } else {
        head + content + tail
    }
}

} // verus!
