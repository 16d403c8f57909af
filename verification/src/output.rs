//! Outputs as the compositor tracks them.

use crate::geometry::{Point, Size};
use crate::search::{first_index, first_match};
use vstd::prelude::*;

verus! {

/// A display mode: a size in pixels and a refresh rate in millihertz.
#[derive(Debug, Clone, Copy, PartialEq, Eq, Structural)]
pub struct OutputMode {
    pub size: Size,
    pub refresh: i32,
}

/// How the content of an output is rotated and mirrored.
#[derive(Debug, Clone, Copy, PartialEq, Eq, Structural)]
pub enum OutputTransform {
    Normal,
    Rotated90,
    Rotated180,
    Rotated270,
    Flipped,
    Flipped90,
    Flipped180,
    Flipped270,
}

/// The scale of an output. A fractional scale is held as the protocol's
/// fixed-point number, in 256ths.
#[derive(Debug, Clone, Copy, PartialEq, Eq, Structural)]
pub enum Scale {
    Integer { factor: i32 },
    Fractional { fixed: i32 },
}

/// One output.
#[derive(Debug)]
pub struct Output {
    /// Tells outputs apart that share a name, as two GPUs may give them.
    pub id: u64,
    pub name: String,
    pub make: String,
    pub model: String,
    /// In millimetres.
    pub physical_size: Size,
    /// The modes that the output is known to have, each of them once.
    pub modes: Vec<OutputMode>,
    pub current_mode: Option<OutputMode>,
    /// The mode that the output would rather have.
    pub preferred_mode: Option<OutputMode>,
    pub location: Point,
    pub transform: OutputTransform,
    pub scale: Scale,
}

/// [`Output`] with its text and its modes as sequences.
pub struct OutputView {
    pub id: u64,
    pub name: Seq<char>,
    pub make: Seq<char>,
    pub model: Seq<char>,
    pub physical_size: Size,
    pub modes: Seq<OutputMode>,
    pub current_mode: Option<OutputMode>,
    pub preferred_mode: Option<OutputMode>,
    pub location: Point,
    pub transform: OutputTransform,
    pub scale: Scale,
}

impl View for Output {
    type V = OutputView;

    open spec fn view(&self) -> OutputView {
        OutputView {
            id: self.id,
            name: self.name@,
            make: self.make@,
            model: self.model@,
            physical_size: self.physical_size,
            modes: self.modes@,
            current_mode: self.current_mode,
            preferred_mode: self.preferred_mode,
            location: self.location,
            transform: self.transform,
            scale: self.scale,
        }
    }
}

impl OutputView {
    /// Each mode is known once, and the current one and the preferred one are known.
    pub open spec fn valid(self) -> bool {
        &&& self.modes.no_duplicates()
        &&& self.current_mode matches Some(mode) ==> self.modes.contains(mode)
        &&& self.preferred_mode matches Some(mode) ==> self.modes.contains(mode)
    }
}

/// The views of a list of outputs.
pub open spec fn output_views(outputs: Seq<Output>) -> Seq<OutputView> {
    outputs.map_values(|o: Output| o@)
}

/// Tells the outputs that are named `name`.
pub open spec fn is_named(name: Seq<char>) -> spec_fn(OutputView) -> bool {
    |o: OutputView| o.name == name
}

/// The place of the output that is named `name`.
pub open spec fn output_index(outputs: Seq<OutputView>, name: Seq<char>) -> Option<int> {
    first_index(outputs, is_named(name))
}

/// The output that is named `name`.
pub open spec fn output_named(outputs: Seq<OutputView>, name: Seq<char>) -> Option<OutputView> {
    first_match(outputs, is_named(name))
}

/// Tells the output that has the identifier `id`.
pub open spec fn has_id(id: u64) -> spec_fn(OutputView) -> bool {
    |o: OutputView| o.id == id
}

/// The output that has the identifier `id`.
pub open spec fn output_with_id(outputs: Seq<OutputView>, id: u64) -> Option<OutputView> {
    first_match(outputs, has_id(id))
}

/// `modes` with `mode` at the end, unless it is among them.
pub open spec fn with_mode(modes: Seq<OutputMode>, mode: OutputMode) -> Seq<OutputMode> {
    if modes.contains(mode) {
        modes
    } else {
        modes.push(mode)
    }
}

/// Looks up the place of an output by its name.
pub fn find_output(outputs: &Vec<Output>, name: &str) -> (place: Option<usize>)
    ensures
        match place {
            Some(i) => {
                &&& i < outputs@.len()
                &&& output_index(output_views(outputs@), name@) == Some(i as int)
                &&& output_named(output_views(outputs@), name@) == Some(outputs@[i as int]@)
            },
            None => {
                &&& output_index(output_views(outputs@), name@) is None
                &&& output_named(output_views(outputs@), name@) is None
            },
        },
{
    let ghost views = output_views(outputs@);
    let wanted = name.to_string();
    for i in 0..outputs.len()
        invariant
            views == output_views(outputs@),
            wanted@ == name@,
            forall|j: int| 0 <= j < i ==> !is_named(name@)(#[trigger] views[j]),
    {
        if outputs[i].name == wanted {
            proof {
                crate::search::first_index_at(views, is_named(name@), i as int);
            }
            return Some(i);
        }
    }
    proof {
        crate::search::first_index_none(views, is_named(name@));
    }
    None
}

/// Looks up the place of an output by its identifier.
pub fn find_output_with_id(outputs: &Vec<Output>, id: u64) -> (place: Option<usize>)
    ensures
        match place {
            Some(i) => {
                &&& i < outputs@.len()
                &&& first_index(output_views(outputs@), has_id(id)) == Some(i as int)
                &&& output_with_id(output_views(outputs@), id) == Some(outputs@[i as int]@)
            },
            None => {
                &&& first_index(output_views(outputs@), has_id(id)) is None
                &&& output_with_id(output_views(outputs@), id) is None
            },
        },
{
    let ghost views = output_views(outputs@);
    for i in 0..outputs.len()
        invariant
            views == output_views(outputs@),
            forall|j: int| 0 <= j < i ==> !has_id(id)(#[trigger] views[j]),
    {
        if outputs[i].id == id {
            proof {
                crate::search::first_index_at(views, has_id(id), i as int);
            }
            return Some(i);
        }
    }
    proof {
        crate::search::first_index_none(views, has_id(id));
    }
    None
}

/// Adds a mode to a list that does not have it yet.
pub fn add_mode(modes: &mut Vec<OutputMode>, mode: OutputMode)
    ensures
        final(modes)@ == with_mode(old(modes)@, mode),
{
    for i in 0..modes.len()
        invariant
            modes@ == old(modes)@,
            forall|j: int| 0 <= j < i ==> #[trigger] modes@[j] != mode,
    {
        if modes[i] == mode {
            assert(modes@.contains(modes@[i as int]));
            return;
        }
    }
    modes.push(mode);
}

/// A mode is never listed twice, however often it is added.
pub proof fn modes_stay_distinct(modes: Seq<OutputMode>, mode: OutputMode)
    requires
        modes.no_duplicates(),
    ensures
        with_mode(modes, mode).no_duplicates(),
        with_mode(modes, mode).contains(mode),
        with_mode(with_mode(modes, mode), mode) == with_mode(modes, mode),
        forall|m: OutputMode| #[trigger] modes.contains(m) ==> with_mode(modes, mode).contains(m),
{
    let more = with_mode(modes, mode);
    if !modes.contains(mode) {
        assert(more[modes.len() as int] == mode);
    }
    assert forall|m: OutputMode| #[trigger] modes.contains(m) implies more.contains(m) by {
        let i = choose|i: int| 0 <= i < modes.len() && modes[i] == m;
        assert(more[i] == m);
    }
}

/// An output that is found by its name has it, and is the first such one; where none is
/// found, no output has it. The place and the output agree.
pub proof fn outputs_are_found_by_their_name(outputs: Seq<OutputView>, name: Seq<char>)
    ensures
        match output_index(outputs, name) {
            Some(i) => {
                &&& 0 <= i < outputs.len()
                &&& outputs[i].name == name
                &&& output_named(outputs, name) == Some(outputs[i])
                &&& forall|j: int| 0 <= j < i ==> (#[trigger] outputs[j]).name != name
            },
            None => {
                &&& output_named(outputs, name) is None
                &&& forall|j: int| 0 <= j < outputs.len() ==> (#[trigger] outputs[j]).name != name
            },
        },
{
    let p = is_named(name);
    crate::search::first_index_meaning(outputs, p);
    let end = match output_index(outputs, name) {
        Some(i) => i,
        None => outputs.len() as int,
    };
    assert forall|j: int| 0 <= j < end implies (#[trigger] outputs[j]).name != name by {
        assert(!p(outputs[j]));
    }
}

/// An output that is found by its identifier has it; where none is found, no output has it.
pub proof fn outputs_are_found_by_their_identifier(outputs: Seq<OutputView>, id: u64)
    ensures
        match first_index(outputs, has_id(id)) {
            Some(i) => {
                &&& 0 <= i < outputs.len()
                &&& outputs[i].id == id
                &&& output_with_id(outputs, id) == Some(outputs[i])
                &&& forall|j: int| 0 <= j < i ==> (#[trigger] outputs[j]).id != id
            },
            None => {
                &&& output_with_id(outputs, id) is None
                &&& forall|j: int| 0 <= j < outputs.len() ==> (#[trigger] outputs[j]).id != id
            },
        },
{
    let p = has_id(id);
    crate::search::first_index_meaning(outputs, p);
    let end = match first_index(outputs, p) {
        Some(i) => i,
        None => outputs.len() as int,
    };
    assert forall|j: int| 0 <= j < end implies (#[trigger] outputs[j]).id != id by {
        assert(!p(outputs[j]));
    }
}

/// A mode that is not listed yet is listed last; those that are listed keep their places.
pub proof fn new_modes_are_listed_last(modes: Seq<OutputMode>, mode: OutputMode, i: int)
    ensures
        0 <= i < modes.len() ==> with_mode(modes, mode)[i] == modes[i],
        !modes.contains(mode) ==> with_mode(modes, mode).len() == modes.len() + 1 && with_mode(
            modes,
            mode,
        ).last() == mode,
        modes.contains(mode) ==> with_mode(modes, mode).len() == modes.len(),
{
}

/// The view of an output keeps everything that it holds; a list is viewed one by one, in
/// order.
pub proof fn output_views_lose_nothing(output: Output, outputs: Seq<Output>, i: int)
    ensures
        output@.id == output.id,
        output@.name == output.name@,
        output@.make == output.make@,
        output@.model == output.model@,
        output@.physical_size == output.physical_size,
        output@.modes == output.modes@,
        output@.current_mode == output.current_mode,
        output@.preferred_mode == output.preferred_mode,
        output@.location == output.location,
        output@.transform == output.transform,
        output@.scale == output.scale,
        output_views(outputs).len() == outputs.len(),
        0 <= i < outputs.len() ==> output_views(outputs)[i] == outputs[i]@,
{
}

/// An output is valid exactly if it lists no mode twice, and lists the mode that it has and
/// the mode that it would rather have.
pub proof fn valid_outputs_list_their_modes(output: OutputView, i: int, j: int)
    requires
        output.valid(),
    ensures
        0 <= i < j < output.modes.len() ==> output.modes[i] != output.modes[j],
        output.current_mode matches Some(mode) ==> exists|k: int|
            0 <= k < output.modes.len() && #[trigger] output.modes[k] == mode,
        output.preferred_mode matches Some(mode) ==> exists|k: int|
            0 <= k < output.modes.len() && #[trigger] output.modes[k] == mode,
{
}

} // verus!
