//! Descriptions of the functions that a model may ask to call.

use crate::accumulate::Text;
use crate::wire::{read_description, wire_description};
use vstd::prelude::*;

verus! {

/// A function that a model may ask to call: its name, what it is for, and
/// the JSON schema of its arguments, kept as JSON text.
#[derive(Debug)]
pub struct Function {
    pub name: String,
    pub description: Option<String>,
    pub parameters: String,
}

/// Mathematical view of a [`Function`].
pub struct FunctionView {
    pub name: Seq<char>,
    pub description: Text,
    pub parameters: Seq<char>,
}

impl View for Function {
    type V = FunctionView;

    open spec fn view(&self) -> FunctionView {
        FunctionView {
            name: self.name@,
            description: self.description.deep_view(),
            parameters: self.parameters@,
        }
    }
}

impl DeepView for Function {
    type V = FunctionView;

    open spec fn deep_view(&self) -> FunctionView {
        self@
    }
}

impl Clone for Function {
    fn clone(&self) -> (copy: Self)
        ensures
            copy@ == self@,
    {
        Function {
            name: self.name.clone(),
            description: self.description.clone(),
            parameters: self.parameters.clone(),
        }
    }
}

/// Where the segment of `path` begins that is open after its first `i`
/// characters. Segments are parted by `::`; the separators are found from
/// the left and do not overlap, so of three colons in a row the first two
/// part and the third begins the next segment.
pub open spec fn segment_start(path: Seq<char>, i: int) -> int
    decreases i,
{
    if i <= 0 {
        0
    } else if i >= 2 && path[i - 2] == ':' && path[i - 1] == ':' && segment_start(path, i - 1) != i
        - 1 {
        i
    } else {
        segment_start(path, i - 1)
    }
}

/// The last of the segments of `path` that `::` parts; all of `path` when
/// it holds no separator.
pub open spec fn last_segment(path: Seq<char>) -> Seq<char> {
    path.subrange(segment_start(path, path.len() as int), path.len() as int)
}

/// A segment begins within the path.
pub proof fn lemma_segment_start_bounds(path: Seq<char>, i: int)
    requires
        0 <= i <= path.len(),
    ensures
        0 <= segment_start(path, i) <= i,
    decreases i,
{
    if i > 0 {
        lemma_segment_start_bounds(path, i - 1);
    }
}

/// The name of a function, given the path of its type: the last segment
/// of the path.
pub fn function_name(path: &str) -> (name: String)
    ensures
        name@ == last_segment(path@),
{
    let len = path.unicode_len();
    let mut start: usize = 0;
    let mut seen: usize = 0;
    let mut previous: char = ' ';
    for c in it: path.chars()
        invariant
            it.seq() == path@,
            len == path@.len(),
            seen == it.index(),
            seen <= len,
            start == segment_start(path@, seen as int),
            start <= seen,
            seen > 0 ==> previous == path@[seen - 1],
    {
        proof {
            lemma_segment_start_bounds(path@, seen + 1);
        }
        if seen >= 1 && previous == ':' && c == ':' && start != seen {
            start = seen + 1;
        }
        previous = c;
        seen += 1;
    }
    path.substring_char(start, len).to_owned()
}

impl Function {
    /// Describes the function whose type has the path `path` and whose
    /// arguments follow the JSON schema `schema`: the name is the last
    /// segment of the path, the description is the string that the
    /// schema holds as `description`, if it holds one, and the parameters
    /// are the schema as it is.
    pub fn from(path: &str, schema: &str) -> (function: Function)
        ensures
            function@ == (FunctionView {
                name: last_segment(path@),
                description: wire_description(schema@),
                parameters: schema@,
            }),
    {
        Function {
            name: function_name(path),
            description: read_description(schema),
            parameters: schema.to_owned(),
        }
    }
}

} // verus!
