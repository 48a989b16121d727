//! The avatar widget: a click either plays the common animation, toggling
//! its direction, or — on a rare draw — plays the rare effect and disables
//! the widget until a timed reset.  The draw is injected, so the interaction
//! is deterministic under test; a drawing front end sits beside it.

use vstd::prelude::*;

verus! {

/// Relies on `rand::Rng::gen_range`: a uniform draw from the range, below
/// its end; it panics only on an empty range, which the bound rules out.
#[verifier::external_body]
pub(crate) fn draw_below(n: u32) -> (r: u32)
    requires
        n >= 1,
    ensures
        r < n,
{
    rand::Rng::gen_range(&mut rand::thread_rng(), 0..n)
}

/// The shake the avatar alternates between on common clicks.
#[derive(Clone, Copy, Debug, PartialEq, Eq, Structural)]
pub enum AvatarAnimation {
    Still,
    ShakeX,
    ShakeY,
}

/// What a click asks the page to do.
#[derive(Clone, Copy, Debug, PartialEq, Eq, Structural)]
pub enum ClickOutcome {
    /// The widget was inactive: nothing happens.
    Ignored,
    /// Play the rare sound and effect, and schedule the timed reset.
    Rare,
    /// Play the common sound with the toggled shake.
    Common,
}

/// How long the widget stays disabled after a rare click, in milliseconds.
pub const AVATAR_RESET_DELAY_MS: u64 = 1000;

/// The next shake: the two directions alternate strictly.
pub open spec fn spec_toggled(a: AvatarAnimation) -> AvatarAnimation {
    match a {
        AvatarAnimation::Still => AvatarAnimation::ShakeX,
        AvatarAnimation::ShakeX => AvatarAnimation::ShakeY,
        AvatarAnimation::ShakeY => AvatarAnimation::ShakeX,
    }
}

pub open spec fn spec_animation_class(a: AvatarAnimation) -> Seq<char> {
    match a {
        AvatarAnimation::Still => ""@,
        AvatarAnimation::ShakeX => "shake-x"@,
        AvatarAnimation::ShakeY => "shake-y"@,
    }
}

/// On successive common clicks the shake strictly alternates: the next
/// shake always differs from the one before, and from the third click on
/// the two directions take turns.
pub proof fn lemma_shake_alternates(a: AvatarAnimation)
    ensures
        spec_toggled(a) != a,
        spec_toggled(spec_toggled(a)) != spec_toggled(a),
        spec_toggled(spec_toggled(spec_toggled(a))) == spec_toggled(a),
{
}

/// The avatar's state: whether clicks do anything, and the current shake.
pub struct InteractiveAvatar {
    pub is_active: bool,
    pub animation: AvatarAnimation,
    /// A draw of 0 out of this many is the rare outcome.
    pub rare_chance: u32,
}

impl InteractiveAvatar {
    /// A fresh avatar: active, not shaking.
    pub fn new(rare_chance: u32) -> (r: InteractiveAvatar)
        requires
            rare_chance >= 1,
        ensures
            r.is_active,
            r.animation == AvatarAnimation::Still,
            r.rare_chance == rare_chance,
    {
        InteractiveAvatar { is_active: true, animation: AvatarAnimation::Still, rare_chance }
    }

    /// One click, with the draw it acts on.  While inactive, clicks are
    /// no-ops; a draw of 0 is the rare outcome and disables the widget;
    /// any other draw toggles the shake.
    pub fn click(&mut self, draw: u32) -> (r: ClickOutcome)
        requires
            draw < old(self).rare_chance,
        ensures
            final(self).rare_chance == old(self).rare_chance,
            !old(self).is_active ==> *final(self) == *old(self) && r == ClickOutcome::Ignored,
            old(self).is_active && draw == 0 ==> !final(self).is_active && final(self).animation
                == old(self).animation && r == ClickOutcome::Rare,
            old(self).is_active && draw != 0 ==> final(self).is_active && final(self).animation
                == spec_toggled(old(self).animation) && r == ClickOutcome::Common,
    {
        if !self.is_active {
            return ClickOutcome::Ignored;
        }
        if draw == 0 {
            self.is_active = false;
            ClickOutcome::Rare
        } else {
            self.animation = match self.animation {
                AvatarAnimation::Still => AvatarAnimation::ShakeX,
                AvatarAnimation::ShakeX => AvatarAnimation::ShakeY,
                AvatarAnimation::ShakeY => AvatarAnimation::ShakeX,
            };
            ClickOutcome::Common
        }
    }

    /// One click with a fresh random draw.  Whatever was drawn: an inactive
    /// widget ignores it, and an active one either goes rare and inactive
    /// or toggles the shake.
    pub fn click_random(&mut self) -> (r: ClickOutcome)
        requires
            old(self).rare_chance >= 1,
        ensures
            final(self).rare_chance == old(self).rare_chance,
            !old(self).is_active ==> *final(self) == *old(self) && r == ClickOutcome::Ignored,
            old(self).is_active ==> {
                ||| r == ClickOutcome::Rare && !final(self).is_active && final(self).animation
                    == old(self).animation
                ||| r == ClickOutcome::Common && final(self).is_active && final(self).animation
                    == spec_toggled(old(self).animation)
            },
    {
        let draw = draw_below(self.rare_chance);
        self.click(draw)
    }

    /// The timed reset: the widget takes clicks again.
    pub fn reset(&mut self)
        ensures
            final(self).is_active,
            final(self).animation == old(self).animation,
            final(self).rare_chance == old(self).rare_chance,
    {
        self.is_active = true;
    }

    /// The style class of the current shake.
    pub fn animation_class(&self) -> (r: &'static str)
        ensures
            r@ == spec_animation_class(self.animation),
    {
        match self.animation {
            AvatarAnimation::Still => "",
            AvatarAnimation::ShakeX => "shake-x",
            AvatarAnimation::ShakeY => "shake-y",
        }
    }
}

} // verus!
