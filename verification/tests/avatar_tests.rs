use portfolio::avatar::{AvatarAnimation, ClickOutcome, InteractiveAvatar, AVATAR_RESET_DELAY_MS};
use portfolio::presentation::tagline;

#[test]
fn a_rare_draw_disables_the_widget_until_reset() {
    let mut avatar = InteractiveAvatar::new(10);
    assert!(avatar.is_active);
    let outcome = avatar.click(0);
    assert_eq!(outcome, ClickOutcome::Rare);
    assert!(!avatar.is_active);
    // the timed reset fires after the fixed delay
    assert_eq!(AVATAR_RESET_DELAY_MS, 1000);
    avatar.reset();
    assert!(avatar.is_active);
}

#[test]
fn common_draws_alternate_the_shake_strictly() {
    let mut avatar = InteractiveAvatar::new(10);
    let mut expected = AvatarAnimation::ShakeX;
    for _ in 0..1000 {
        let outcome = avatar.click(1);
        assert_eq!(outcome, ClickOutcome::Common);
        assert!(avatar.is_active);
        assert_eq!(avatar.animation, expected);
        expected = if expected == AvatarAnimation::ShakeX {
            AvatarAnimation::ShakeY
        } else {
            AvatarAnimation::ShakeX
        };
    }
}

#[test]
fn a_thousand_clicks_after_a_rare_first_draw_stay_ignored() {
    let mut avatar = InteractiveAvatar::new(10);
    assert_eq!(avatar.click(0), ClickOutcome::Rare);
    for draw in 0..1000u32 {
        assert_eq!(avatar.click(draw % 10), ClickOutcome::Ignored);
        assert!(!avatar.is_active);
        assert_eq!(avatar.animation, AvatarAnimation::Still);
    }
    avatar.reset();
    assert!(avatar.is_active);
}

#[test]
fn animation_classes_match_the_shakes() {
    let mut avatar = InteractiveAvatar::new(15);
    assert_eq!(avatar.animation_class(), "");
    avatar.click(3);
    assert_eq!(avatar.animation_class(), "shake-x");
    avatar.click(7);
    assert_eq!(avatar.animation_class(), "shake-y");
    avatar.click(1);
    assert_eq!(avatar.animation_class(), "shake-x");
}

#[test]
fn a_certain_rare_chance_always_draws_rare() {
    // with one face on the die, the random click must draw 0
    let mut avatar = InteractiveAvatar::new(1);
    assert_eq!(avatar.click_random(), ClickOutcome::Rare);
    assert!(!avatar.is_active);
    assert_eq!(avatar.click_random(), ClickOutcome::Ignored);
}

#[test]
fn taglines_cover_the_three_texts() {
    assert_eq!(tagline(0), "simply makes things");
    assert_eq!(tagline(1), "makes simple things");
    assert_eq!(tagline(2), "makes things simple");
    let picked = portfolio::presentation::random_tagline();
    assert!(
        picked == "simply makes things" || picked == "makes simple things"
            || picked == "makes things simple"
    );
}
