//! `linux-dmabuf`: which GPU buffers clients can hand over.

use vstd::prelude::*;

verus! {

/// A pixel format with its memory layout.
#[derive(Debug, Clone, Copy, PartialEq, Eq, Structural)]
pub struct Format {
    /// The four-character code of the pixel format.
    pub code: u32,
    pub modifier: u64,
}

/// `XR30`: ten bits for each colour.
pub const XRGB2101010: u32 = 0x3033_5258;

/// `AR30`: ten bits for each colour, and two for transparency.
pub const ARGB2101010: u32 = 0x3033_5241;

/// `XR24`: eight bits for each colour.
pub const XRGB8888: u32 = 0x3432_5258;

/// `AR24`: eight bits for each colour and for transparency.
pub const ARGB8888: u32 = 0x3432_5241;

/// Rows of pixels, one after the other.
pub const LINEAR: u64 = 0;

/// Formats that clients had better use.
#[derive(Debug, PartialEq, Eq)]
pub struct Tranche {
    pub device: u64,
    /// The formats can be scanned out directly.
    pub scanout: bool,
    pub formats: Vec<Format>,
}

/// What clients are told of the formats that can be imported.
#[derive(Debug, PartialEq, Eq)]
pub struct Feedback {
    pub device: u64,
    pub formats: Vec<Format>,
    pub preference: Option<Tranche>,
}

/// The global that clients see.
#[derive(Debug, PartialEq, Eq)]
pub enum DmabufGlobal {
    /// With feedback for each format.
    WithFeedback,
    /// With a plain list of formats.
    Plain { formats: Vec<Format> },
}

/// The formats that are tried for direct scanout, the best first.
pub open spec fn candidates() -> Seq<Format> {
    seq![
        Format { code: XRGB2101010, modifier: LINEAR },
        Format { code: ARGB2101010, modifier: LINEAR },
        Format { code: XRGB8888, modifier: LINEAR },
        Format { code: ARGB8888, modifier: LINEAR },
    ]
}

/// Tells the formats that are among `formats`.
pub open spec fn is_among(formats: Seq<Format>) -> spec_fn(Format) -> bool {
    |f: Format| formats.contains(f)
}

/// The candidates that the renderer can import, in their order.
pub open spec fn preferred_formats(render_formats: Seq<Format>) -> Seq<Format> {
    candidates().filter(is_among(render_formats))
}

/// Lists the formats that are tried for direct scanout.
pub fn scanout_candidate_formats() -> (formats: Vec<Format>)
    ensures
        formats@ == candidates(),
{
    let mut formats: Vec<Format> = Vec::new();
    formats.push(Format { code: XRGB2101010, modifier: LINEAR });
    formats.push(Format { code: ARGB2101010, modifier: LINEAR });
    formats.push(Format { code: XRGB8888, modifier: LINEAR });
    formats.push(Format { code: ARGB8888, modifier: LINEAR });
    assert(formats@ =~= candidates());
    formats
}

fn has_format(formats: &Vec<Format>, format: Format) -> (found: bool)
    ensures
        found == formats@.contains(format),
{
    for i in 0..formats.len()
        invariant
            forall|j: int| 0 <= j < i ==> #[trigger] formats@[j] != format,
    {
        if formats[i] == format {
            assert(formats@[i as int] == format);
            return true;
        }
    }
    false
}

/// Works out what clients are told. `render_formats` is what the renderer can
/// import. Formats for direct scanout are preferred, unless there are none; without
/// a device of its own the feedback names device zero.
pub fn init_dmabuf(render_formats: Vec<Format>, main_device: Option<u64>) -> (feedback: Feedback)
    ensures
        feedback.formats@ == render_formats@,
        feedback.device == (match main_device {
            Some(device) => device,
            None => 0,
        }),
        match feedback.preference {
            Some(tranche) => {
                &&& tranche.device == feedback.device
                &&& tranche.scanout
                &&& tranche.formats@ == preferred_formats(render_formats@)
                &&& tranche.formats@.len() > 0
            },
            None => preferred_formats(render_formats@).len() == 0,
        },
        main_device matches Some(device) ==> feedback.device == device,
        main_device is None ==> feedback.device == 0,
        feedback.preference is Some <==> exists|i: int|
            0 <= i < candidates().len() && render_formats@.contains(#[trigger] candidates()[i]),
{
    let device: u64 = match main_device {
        Some(device) => device,
        None => 0,
    };
    let all = scanout_candidate_formats();
    let ghost p = is_among(render_formats@);
    let mut preferred: Vec<Format> = Vec::new();
    assert(all@.take(0).filter(p) =~= preferred@) by {
        reveal(Seq::filter);
    }
    for i in 0..all.len()
        invariant
            p == is_among(render_formats@),
            preferred@ == all@.take(i as int).filter(p),
    {
        proof {
            crate::search::filter_step(all@, p, i as int);
        }
        if has_format(&render_formats, all[i]) {
            preferred.push(all[i]);
        }
    }
    assert(all@.take(all@.len() as int) =~= all@);
    proof {
        let kept = preferred_formats(render_formats@);
        if kept.len() > 0 {
            assert(kept.contains(kept[0]));
            preferred_formats_can_be_imported(render_formats@, kept[0]);
            let i = choose|i: int| 0 <= i < candidates().len() && candidates()[i] == kept[0];
            assert(render_formats@.contains(candidates()[i]));
        }
        if exists|i: int|
            0 <= i < candidates().len() && render_formats@.contains(#[trigger] candidates()[i]) {
            let i = choose|i: int|
                0 <= i < candidates().len() && render_formats@.contains(#[trigger] candidates()[i]);
            preferred_formats_can_be_imported(render_formats@, candidates()[i]);
            assert(candidates().contains(candidates()[i]));
            assert(kept.contains(candidates()[i]));
        }
    }
    let preference = if preferred.len() > 0 {
        Some(Tranche { device, scanout: true, formats: preferred })
    } else {
        None
    };
    Feedback { device, formats: render_formats, preference }
}

/// Picks the global. Where the feedback could not be put together, clients still
/// get the plain list of formats.
pub fn dmabuf_global(feedback: Feedback, built: bool) -> (global: DmabufGlobal)
    ensures
        global == if built {
            DmabufGlobal::WithFeedback
        } else {
            DmabufGlobal::Plain { formats: feedback.formats }
        },
        global is WithFeedback <==> built,
        global matches DmabufGlobal::Plain { formats } ==> formats@ == feedback.formats@,
{
    if built {
        DmabufGlobal::WithFeedback
    } else {
        DmabufGlobal::Plain { formats: feedback.formats }
    }
}

/// A format is preferred only if it can be scanned out and imported; no such format
/// is left out.
pub proof fn preferred_formats_can_be_imported(render_formats: Seq<Format>, format: Format)
    ensures
        preferred_formats(render_formats).contains(format) <==> candidates().contains(format)
            && render_formats.contains(format),
{
    crate::search::filter_membership(candidates(), is_among(render_formats), format);
}

/// For direct scanout, ten bits for each colour are tried before eight, formats without
/// transparency before those with it, and only rows of pixels one after the other.
pub proof fn deep_colour_is_tried_first()
    ensures
        candidates().len() == 4,
        candidates()[0].code == XRGB2101010,
        candidates()[1].code == ARGB2101010,
        candidates()[2].code == XRGB8888,
        candidates()[3].code == ARGB8888,
        forall|i: int| 0 <= i < 4 ==> (#[trigger] candidates()[i]).modifier == 0,
        candidates().no_duplicates(),
{
}

/// What is preferred comes in the order in which it is tried: of two formats that can be
/// imported, the better one is first.
pub proof fn better_formats_come_first(render_formats: Seq<Format>, i: int, j: int)
    requires
        0 <= i < j < 4,
        render_formats.contains(candidates()[i]),
        render_formats.contains(candidates()[j]),
    ensures
        exists|a: int, b: int|
            0 <= a < b < preferred_formats(render_formats).len() && #[trigger] preferred_formats(
                render_formats,
            )[a] == candidates()[i] && #[trigger] preferred_formats(render_formats)[b]
                == candidates()[j],
{
    let p = is_among(render_formats);
    let all = candidates();
    crate::search::filter_keeps_order(all, p, i, j);
    let kept = preferred_formats(render_formats);
    let (a, b) = choose|a: int, b: int|
        0 <= a < b < all.filter(p).len() && #[trigger] all.filter(p)[a] == all[i]
            && #[trigger] all.filter(p)[b] == all[j];
    assert(kept[a] == candidates()[i] && kept[b] == candidates()[j]);
}

/// A renderer that can import nothing prefers nothing, and one that can import every
/// candidate prefers them all.
pub proof fn preferences_follow_the_renderer()
    ensures
        preferred_formats(Seq::empty()).len() == 0,
        preferred_formats(candidates()) == candidates(),
{
    let none = preferred_formats(Seq::empty());
    if none.len() > 0 {
        assert(none.contains(none[0]));
        crate::search::filter_membership(candidates(), is_among(Seq::empty()), none[0]);
    }
    assert forall|i: int| 0 <= i < candidates().len() implies is_among(candidates())(
        #[trigger] candidates()[i],
    ) by {
        assert(candidates().contains(candidates()[i]));
    }
    crate::search::filter_of_matches(candidates(), is_among(candidates()));
}

} // verus!
