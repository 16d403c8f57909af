//! `idle-inhibit`: surfaces that keep the screen awake.

use crate::state::BlueState;
use vstd::prelude::*;

verus! {

/// A surface that holds an idle inhibitor, and what is known of it.
#[derive(Debug, Clone, Copy, PartialEq, Eq, Structural)]
pub struct InhibitingSurface {
    pub surface: u64,
    pub alive: bool,
    pub visible: bool,
}

/// Whether some visible surface that still exists holds an inhibitor.
pub open spec fn keeps_awake(surfaces: Seq<InhibitingSurface>) -> bool {
    exists|i: int| 0 <= i < surfaces.len() && (#[trigger] surfaces[i]).alive && surfaces[i].visible
}

/// Tells the inhibitors of all other surfaces.
pub open spec fn is_not_of(surface: u64) -> spec_fn(InhibitingSurface) -> bool {
    |s: InhibitingSurface| s.surface != surface
}

/// `s`, with its state replaced if it is of `surface`.
pub open spec fn with_status(
    s: InhibitingSurface,
    surface: u64,
    alive: bool,
    visible: bool,
) -> InhibitingSurface {
    if s.surface == surface {
        InhibitingSurface { surface, alive, visible }
    } else {
        s
    }
}

impl BlueState {
    /// A surface asks for an inhibitor.
    pub fn inhibit(&mut self, surface: u64, visible: bool)
        ensures
            final(self).idle_inhibiting_surfaces@ == old(self).idle_inhibiting_surfaces@.push(
                InhibitingSurface { surface, alive: true, visible },
            ),
            *final(self) == (BlueState {
                idle_inhibiting_surfaces: final(self).idle_inhibiting_surfaces,
                ..*old(self)
            }),
            keeps_awake(final(self).idle_inhibiting_surfaces@) <==> visible || keeps_awake(
                old(self).idle_inhibiting_surfaces@,
            ),
            final(self).idle_inhibiting_surfaces@.last().surface == surface,
    {
        proof {
            a_visible_inhibitor_counts(self.idle_inhibiting_surfaces@, surface, visible);
        }
        self.idle_inhibiting_surfaces.push(InhibitingSurface { surface, alive: true, visible });
    }

    /// A surface gives its inhibitors up.
    pub fn uninhibit(&mut self, surface: u64)
        ensures
            final(self).idle_inhibiting_surfaces@ == old(self).idle_inhibiting_surfaces@.filter(
                is_not_of(surface),
            ),
            *final(self) == (BlueState {
                idle_inhibiting_surfaces: final(self).idle_inhibiting_surfaces,
                ..*old(self)
            }),
            forall|s: InhibitingSurface| #[trigger]
                final(self).idle_inhibiting_surfaces@.contains(s) <==> old(
                    self,
                ).idle_inhibiting_surfaces@.contains(s) && s.surface != surface,
    {
        let ghost all = self.idle_inhibiting_surfaces@;
        let mut kept: Vec<InhibitingSurface> = Vec::new();
        assert(all.take(0).filter(is_not_of(surface)) =~= kept@) by {
            reveal(Seq::filter);
        }
        for i in 0..self.idle_inhibiting_surfaces.len()
            invariant
                all == self.idle_inhibiting_surfaces@,
                kept@ == all.take(i as int).filter(is_not_of(surface)),
        {
            proof {
                crate::search::filter_step(all, is_not_of(surface), i as int);
            }
            if self.idle_inhibiting_surfaces[i].surface != surface {
                kept.push(self.idle_inhibiting_surfaces[i]);
            }
        }
        assert(all.take(all.len() as int) =~= all);
        assert forall|s: InhibitingSurface| #[trigger] kept@.contains(s) <==> all.contains(s)
            && s.surface != surface by {
            releasing_keeps_other_inhibitors(all, surface, s);
        }
        self.idle_inhibiting_surfaces = kept;
    }

    /// A surface was destroyed, shown or hidden.
    pub fn set_surface_status(&mut self, surface: u64, alive: bool, visible: bool)
        ensures
            final(self).idle_inhibiting_surfaces@ == old(self).idle_inhibiting_surfaces@.map_values(
                |s: InhibitingSurface| with_status(s, surface, alive, visible),
            ),
            forall|i: int|
                0 <= i < old(self).idle_inhibiting_surfaces@.len() ==> {
                    let was = old(self).idle_inhibiting_surfaces@[i];
                    let now = #[trigger] final(self).idle_inhibiting_surfaces@[i];
                    &&& now.surface == was.surface
                    &&& was.surface == surface ==> now.alive == alive && now.visible == visible
                    &&& was.surface != surface ==> now == was
                },
            *final(self) == (BlueState {
                idle_inhibiting_surfaces: final(self).idle_inhibiting_surfaces,
                ..*old(self)
            }),
    {
        let count: usize = self.idle_inhibiting_surfaces.len();
        let ghost all = self.idle_inhibiting_surfaces@;
        for i in 0..count
            invariant
                count == all.len(),
                self.idle_inhibiting_surfaces@.len() == count,
                forall|j: int|
                    0 <= j < count ==> #[trigger] self.idle_inhibiting_surfaces@[j] == if j < i {
                        with_status(all[j], surface, alive, visible)
                    } else {
                        all[j]
                    },
                *self == (BlueState {
                    idle_inhibiting_surfaces: self.idle_inhibiting_surfaces,
                    ..*old(self)
                }),
        {
            if self.idle_inhibiting_surfaces[i].surface == surface {
                self.idle_inhibiting_surfaces[i] = InhibitingSurface { surface, alive, visible };
            }
        }
    }

    /// Whether the screen has to stay on. The timer that blanks the outputs asks
    /// this first.
    pub fn is_idle_inhibited(&self) -> (inhibited: bool)
        ensures
            inhibited == keeps_awake(self.idle_inhibiting_surfaces@),
    {
        for i in 0..self.idle_inhibiting_surfaces.len()
            invariant
                forall|j: int|
                    0 <= j < i ==> !((#[trigger] self.idle_inhibiting_surfaces@[j]).alive
                        && self.idle_inhibiting_surfaces@[j].visible),
        {
            let s = self.idle_inhibiting_surfaces[i];
            if s.alive && s.visible {
                assert(self.idle_inhibiting_surfaces@[i as int].alive);
                return true;
            }
        }
        false
    }
}

/// Nothing has to be set up: the global exists as soon as the state does.
pub fn init(state: &mut BlueState)
    ensures
        *final(state) == *old(state),
{
}

/// A visible surface that asks for an inhibitor keeps the screen awake; a hidden
/// one changes nothing.
pub proof fn a_visible_inhibitor_counts(
    surfaces: Seq<InhibitingSurface>,
    surface: u64,
    visible: bool,
)
    ensures
        keeps_awake(surfaces.push(InhibitingSurface { surface, alive: true, visible })) <==> (
        visible || keeps_awake(surfaces)),
{
    let new = InhibitingSurface { surface, alive: true, visible };
    let more = surfaces.push(new);
    assert(more[surfaces.len() as int] == new);
    if keeps_awake(surfaces) {
        let i = choose|i: int|
            0 <= i < surfaces.len() && (#[trigger] surfaces[i]).alive && surfaces[i].visible;
        assert(more[i].alive);
    }
    if keeps_awake(more) && !visible {
        let i = choose|i: int|
            0 <= i < more.len() && (#[trigger] more[i]).alive && more[i].visible;
        assert(surfaces[i].alive);
    }
}

/// Giving an inhibitor up undoes asking for it, for a surface that held none.
pub proof fn releasing_undoes_inhibiting(
    surfaces: Seq<InhibitingSurface>,
    surface: u64,
    visible: bool,
)
    requires
        forall|i: int| 0 <= i < surfaces.len() ==> (#[trigger] surfaces[i]).surface != surface,
    ensures
        surfaces.push(InhibitingSurface { surface, alive: true, visible }).filter(
            is_not_of(surface),
        ) == surfaces,
{
    let new = InhibitingSurface { surface, alive: true, visible };
    reveal(Seq::filter);
    assert(surfaces.push(new).drop_last() =~= surfaces);
    crate::search::filter_of_matches(surfaces, is_not_of(surface));
}

/// Once the only surfaces that held inhibitors have released them, the screen may
/// go dark.
pub proof fn released_inhibitors_do_not_count(surfaces: Seq<InhibitingSurface>, surface: u64)
    requires
        forall|i: int| 0 <= i < surfaces.len() ==> (#[trigger] surfaces[i]).surface == surface,
    ensures
        !keeps_awake(surfaces.filter(is_not_of(surface))),
{
    let left = surfaces.filter(is_not_of(surface));
    if left.len() > 0 {
        crate::search::filter_membership(surfaces, is_not_of(surface), left[0]);
        assert(left.contains(left[0]));
    }
}

/// A surface that is hidden or destroyed stops keeping the screen awake, and one that is
/// shown again starts again; no other surface is affected.
pub proof fn only_shown_surfaces_keep_the_screen_awake(
    surfaces: Seq<InhibitingSurface>,
    surface: u64,
    alive: bool,
    visible: bool,
)
    ensures
        ({
            let now = surfaces.map_values(
                |s: InhibitingSurface| with_status(s, surface, alive, visible),
            );
            keeps_awake(now) <==> (exists|i: int|
                0 <= i < surfaces.len() && (#[trigger] surfaces[i]).surface == surface && alive
                    && visible) || (exists|i: int|
                0 <= i < surfaces.len() && (#[trigger] surfaces[i]).surface != surface
                    && surfaces[i].alive && surfaces[i].visible)
        }),
{
    let now = surfaces.map_values(
        |s: InhibitingSurface| with_status(s, surface, alive, visible),
    );
    if keeps_awake(now) {
        let i = choose|i: int| 0 <= i < now.len() && (#[trigger] now[i]).alive && now[i].visible;
        assert(surfaces[i].surface == surface || surfaces[i].surface != surface);
    }
    if exists|i: int|
        0 <= i < surfaces.len() && (#[trigger] surfaces[i]).surface == surface && alive && visible {
        let i = choose|i: int|
            0 <= i < surfaces.len() && (#[trigger] surfaces[i]).surface == surface && alive
                && visible;
        assert(now[i].alive);
    }
    if exists|i: int|
        0 <= i < surfaces.len() && (#[trigger] surfaces[i]).surface != surface && surfaces[i].alive
            && surfaces[i].visible {
        let i = choose|i: int|
            0 <= i < surfaces.len() && (#[trigger] surfaces[i]).surface != surface
                && surfaces[i].alive && surfaces[i].visible;
        assert(now[i].alive);
    }
}

/// Releasing takes away exactly the inhibitors of the surface that releases.
pub proof fn releasing_keeps_other_inhibitors(
    surfaces: Seq<InhibitingSurface>,
    surface: u64,
    held: InhibitingSurface,
)
    ensures
        surfaces.filter(is_not_of(surface)).contains(held) <==> surfaces.contains(held)
            && held.surface != surface,
{
    crate::search::filter_membership(surfaces, is_not_of(surface), held);
}

/// A surface keeps its identity when its state changes, and takes over exactly that state.
pub proof fn a_status_is_taken_over(
    s: InhibitingSurface,
    surface: u64,
    alive: bool,
    visible: bool,
)
    ensures
        with_status(s, surface, alive, visible).surface == s.surface,
        s.surface == surface ==> with_status(s, surface, alive, visible).alive == alive
            && with_status(s, surface, alive, visible).visible == visible,
        s.surface != surface ==> with_status(s, surface, alive, visible) == s,
{
}

/// Without a surface that exists and is visible the screen may go dark; with one it may not.
pub proof fn the_screen_stays_on_for_visible_surfaces(surfaces: Seq<InhibitingSurface>, i: int)
    ensures
        0 <= i < surfaces.len() && surfaces[i].alive && surfaces[i].visible ==> keeps_awake(
            surfaces,
        ),
        (forall|k: int|
            0 <= k < surfaces.len() ==> !(#[trigger] surfaces[k]).alive || !surfaces[k].visible)
            ==> !keeps_awake(surfaces),
{
}

} // verus!
