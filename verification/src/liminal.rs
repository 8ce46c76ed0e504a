use vstd::prelude::*;

use crate::engine::random::random_chance;
use crate::world::block::Block;

verus! {

/// The number of almond waters beyond which the player has escaped.
pub const ALMOND_WATER_GOAL: i32 = 100;

/// The keys the frame loop reacts to, each telling whether it was pressed
/// since the last frame.
#[derive(Debug, Clone, Copy, PartialEq, Eq, Structural)]
pub struct FrameKeys {
    /// Toggles the quit request.
    pub escape: bool,
    /// Toggles the mouse grab request.
    pub key_q: bool,
    /// Toggles collisions (walking versus free flight).
    pub key_y: bool,
    /// Halves the movement speed.
    pub bracket_left: bool,
    /// Doubles the movement speed.
    pub bracket_right: bool,
    /// Makes looking around slower.
    pub minus: bool,
    /// Makes looking around faster.
    pub equal: bool,
    /// Toggles the flashlight.
    pub key_t: bool,
}

/// What the frame loop must do outside the session state, in order.
#[derive(Debug, Clone, Copy, PartialEq, Eq, Structural)]
pub enum FrameAction {
    /// Tell the player that they escaped.
    AnnounceEscape,
    /// Halve the movement speed.
    HalveMoveSpeed,
    /// Double the movement speed.
    DoubleMoveSpeed,
    /// Divide the look speed by eleven tenths.
    SlowerLook,
    /// Multiply the look speed by eleven tenths.
    FasterLook,
    /// Play the flashlight click.
    FlashlightSound,
}

/// What picking up an almond water sets off beyond counting it: the beep,
/// emptying its cell, and possibly the arrival of smilers.
#[derive(Debug, Clone, Copy, PartialEq, Eq, Structural)]
pub struct Pickup {
    /// A smiler is heard behind the player and joins the world.
    pub follower: bool,
    /// Another smiler joins the world, silently.
    pub lurker: bool,
}

/// The discrete state of a play session.
#[derive(Debug, Clone, Copy, PartialEq, Eq, Structural)]
pub struct SessionState {
    /// Almond waters picked up so far.
    pub almond_waters: i32,
    /// Whether the player walks and collides (true) or flies freely.
    pub collisions: bool,
    /// Whether the flashlight is on.
    pub flashlight_on: bool,
    /// Whether the application is asked to quit.
    pub request_quit: bool,
    /// Whether the application is asked to grab the mouse.
    pub request_grab: bool,
}

/// Whether the player has escaped: more than `ALMOND_WATER_GOAL` almond
/// waters, or climbed out above the escape height.
pub open spec fn escaped(almond_waters: int, climbed_out: bool) -> bool {
    almond_waters > ALMOND_WATER_GOAL || climbed_out
}

/// `a` as a one-element sequence when `cond` holds, else empty.
pub open spec fn action_if(cond: bool, a: FrameAction) -> Seq<FrameAction> {
    if cond {
        seq![a]
    } else {
        Seq::empty()
    }
}

/// The actions of one frame, in the order the frame loop performs them.
pub open spec fn frame_actions(s: SessionState, keys: FrameKeys, climbed_out: bool) -> Seq<
    FrameAction,
> {
    action_if(escaped(s.almond_waters as int, climbed_out), FrameAction::AnnounceEscape) + action_if(
        keys.bracket_left,
        FrameAction::HalveMoveSpeed,
    ) + action_if(keys.bracket_right, FrameAction::DoubleMoveSpeed) + action_if(
        keys.minus,
        FrameAction::SlowerLook,
    ) + action_if(keys.equal, FrameAction::FasterLook) + action_if(keys.key_t, FrameAction::FlashlightSound)
}

/// The session state after one frame's keys.
pub open spec fn after_keys(s: SessionState, keys: FrameKeys, climbed_out: bool) -> SessionState {
    SessionState {
        almond_waters: s.almond_waters,
        collisions: s.collisions != keys.key_y,
        flashlight_on: s.flashlight_on != keys.key_t,
        request_quit: (s.request_quit != escaped(s.almond_waters as int, climbed_out))
            != keys.escape,
        request_grab: s.request_grab != keys.key_q,
    }
}

fn push_when(actions: &mut Vec<FrameAction>, cond: bool, a: FrameAction)
    ensures
        final(actions)@ == old(actions)@ + action_if(cond, a),
{
    if cond {
        actions.push(a);
    } else {
        assert(old(actions)@ + action_if(cond, a) =~= old(actions)@);
    }
}

/// Every setting the frame keys change is a toggle: the same keys in two
/// frames in a row, with the same climbing state, leave the session as it
/// was, and neither frame changes the almond water count.
pub proof fn lemma_frame_keys_toggle_back(s: SessionState, keys: FrameKeys, climbed_out: bool)
    ensures
        after_keys(after_keys(s, keys, climbed_out), keys, climbed_out) == s,
        after_keys(s, keys, climbed_out).almond_waters == s.almond_waters,
{
}

/// What each key does to the session, whatever else is pressed: Y toggles
/// collisions, T the flashlight, Q the mouse grab; the quit request toggles
/// once for the escape key and once more while the player has escaped (more
/// than a hundred almond waters, or climbed out); no key changes the almond
/// water count. The frame's actions announce the escape first exactly when
/// the player has escaped, and the flashlight click comes last exactly when
/// T was pressed.
pub proof fn lemma_frame_key_effects(s: SessionState, keys: FrameKeys, climbed_out: bool)
    ensures
        after_keys(s, keys, climbed_out).collisions == (s.collisions != keys.key_y),
        after_keys(s, keys, climbed_out).flashlight_on == (s.flashlight_on != keys.key_t),
        after_keys(s, keys, climbed_out).request_grab == (s.request_grab != keys.key_q),
        after_keys(s, keys, climbed_out).request_quit == ((s.request_quit != keys.escape) != (
        s.almond_waters > 100 || climbed_out)),
        after_keys(s, keys, climbed_out).almond_waters == s.almond_waters,
        (s.almond_waters > 100 || climbed_out) <==> (frame_actions(s, keys, climbed_out).len() > 0
            && frame_actions(s, keys, climbed_out)[0] == FrameAction::AnnounceEscape),
        keys.key_t <==> (frame_actions(s, keys, climbed_out).len() > 0 && frame_actions(
            s,
            keys,
            climbed_out,
        ).last() == FrameAction::FlashlightSound),
        frame_actions(s, keys, climbed_out).len() == (if s.almond_waters > 100 || climbed_out {
            1int
        } else {
            0
        }) + (if keys.bracket_left {
            1int
        } else {
            0
        }) + (if keys.bracket_right {
            1int
        } else {
            0
        }) + (if keys.minus {
            1int
        } else {
            0
        }) + (if keys.equal {
            1int
        } else {
            0
        }) + (if keys.key_t {
            1int
        } else {
            0
        }),
{
}

impl SessionState {
    /// The state a session starts in: nothing collected, collisions on,
    /// flashlight off, with the application's current requests.
    pub fn new(request_quit: bool, request_grab: bool) -> (s: SessionState)
        ensures
            s.almond_waters == 0,
            s.collisions,
            !s.flashlight_on,
            s.request_quit == request_quit,
            s.request_grab == request_grab,
    {
        SessionState {
            almond_waters: 0,
            collisions: true,
            flashlight_on: false,
            request_quit,
            request_grab,
        }
    }

    /// Whether the player has escaped, given whether they climbed out above
    /// the escape height.
    pub fn has_escaped(&self, climbed_out: bool) -> (done: bool)
        ensures
            done == escaped(self.almond_waters as int, climbed_out),
    {
        self.almond_waters > ALMOND_WATER_GOAL || climbed_out
    }

    /// Applies one frame's keys. An escaped player toggles the quit request
    /// each frame, and so does the escape key; the other keys toggle their
    /// setting or ask for a speed change. Returns what the frame loop must do
    /// besides, in order.
    pub fn handle_frame_keys(&mut self, keys: FrameKeys, climbed_out: bool) -> (actions: Vec<
        FrameAction,
    >)
        ensures
            *final(self) == after_keys(*old(self), keys, climbed_out),
            actions@ == frame_actions(*old(self), keys, climbed_out),
            final(self).collisions == (old(self).collisions != keys.key_y),
            final(self).flashlight_on == (old(self).flashlight_on != keys.key_t),
            final(self).request_grab == (old(self).request_grab != keys.key_q),
            final(self).almond_waters == old(self).almond_waters,
    {
        let mut actions: Vec<FrameAction> = Vec::new();
        let done = self.has_escaped(climbed_out);
        push_when(&mut actions, done, FrameAction::AnnounceEscape);
        if done {
            self.request_quit = !self.request_quit;
        }
        if keys.escape {
            self.request_quit = !self.request_quit;
        }
        if keys.key_q {
            self.request_grab = !self.request_grab;
        }
        if keys.key_y {
            self.collisions = !self.collisions;
        }
        push_when(&mut actions, keys.bracket_left, FrameAction::HalveMoveSpeed);
        push_when(&mut actions, keys.bracket_right, FrameAction::DoubleMoveSpeed);
        push_when(&mut actions, keys.minus, FrameAction::SlowerLook);
        push_when(&mut actions, keys.equal, FrameAction::FasterLook);
        if keys.key_t {
            self.flashlight_on = !self.flashlight_on;
        }
        push_when(&mut actions, keys.key_t, FrameAction::FlashlightSound);
        actions
    }

    /// Counts the almond water that was clicked and says which smilers it
    /// brings, given the two draws: `follower` and `lurker`.
    pub fn pickup_from(&mut self, follower: bool, lurker: bool) -> (pickup: Pickup)
        requires
            old(self).almond_waters < i32::MAX,
        ensures
            final(self).almond_waters == old(self).almond_waters + 1,
            final(self).collisions == old(self).collisions,
            final(self).flashlight_on == old(self).flashlight_on,
            final(self).request_quit == old(self).request_quit,
            final(self).request_grab == old(self).request_grab,
            pickup == (Pickup { follower, lurker }),
    {
        self.almond_waters = self.almond_waters + 1;
        Pickup { follower, lurker }
    }

    /// Reacts to a click on block `hit`. Only almond water can be picked up:
    /// it is counted, and a smiler follows with chance one in forty and
    /// another lurks with chance one in two hundred. Any other block leaves
    /// the session unchanged.
    pub fn click_block(&mut self, hit: Block) -> (pickup: Option<Pickup>)
        requires
            old(self).almond_waters < i32::MAX,
        ensures
            hit != Block::AlmondWater ==> pickup is None && *final(self) == *old(self),
            hit == Block::AlmondWater ==> pickup is Some && final(self).almond_waters == old(
                self,
            ).almond_waters + 1 && final(self).collisions == old(self).collisions
                && final(self).flashlight_on == old(self).flashlight_on
                && final(self).request_quit == old(self).request_quit
                && final(self).request_grab == old(self).request_grab,
    {
        if hit != Block::AlmondWater {
            return None;
        }
        let follower = random_chance(1, 40);
        let lurker = random_chance(1, 200);
        Some(self.pickup_from(follower, lurker))
    }
}

} // verus!
