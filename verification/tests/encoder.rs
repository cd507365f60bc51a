//! The key encoder, scenario by scenario.

use nwin::KeyMods;
use nwin::NvimKeycode;
use nwin::nvim_char_representation;
use nwin::nvim_event_representation;
use nwin::nvim_text_input_representation;

fn shift() -> KeyMods {
    KeyMods { lshift: true, ..KeyMods::none() }
}

fn ctrl() -> KeyMods {
    KeyMods { lctrl: true, ..KeyMods::none() }
}

#[test]
fn plain_literal_is_suppressed() {
    assert_eq!(nvim_event_representation(NvimKeycode::A, KeyMods::none()), None);
    assert_eq!(nvim_event_representation(NvimKeycode::Slash, KeyMods::none()), None);
}

#[test]
fn shifted_literal_is_still_suppressed_without_other_modifiers() {
    // shift alone does not force a literal through: the composed-text path
    // will deliver the shifted character itself
    assert_eq!(nvim_event_representation(NvimKeycode::A, shift()), None);
}

#[test]
fn control_forces_a_literal_through() {
    let r = nvim_event_representation(NvimKeycode::A, ctrl()).unwrap();
    assert_eq!(r.as_str(), "<C-a>");
}

#[test]
fn control_and_shift_order_prefixes() {
    let m = KeyMods { lctrl: true, rshift: true, ..KeyMods::none() };
    let r = nvim_event_representation(NvimKeycode::A, m).unwrap();
    assert_eq!(r.as_str(), "<C-S-a>");
}

#[test]
fn all_prefixes_come_in_fixed_order() {
    let m = KeyMods { lalt: true, rctrl: true, lgui: true, lshift: true, ..KeyMods::none() };
    let r = nvim_event_representation(NvimKeycode::X, m).unwrap();
    assert_eq!(r.as_str(), "<A-C-D-S-x>");
}

#[test]
fn symbolic_keys_pass_without_modifiers() {
    let r = nvim_event_representation(NvimKeycode::Escape, KeyMods::none()).unwrap();
    assert_eq!(r.as_str(), "<Esc>");
    let r = nvim_event_representation(NvimKeycode::Return, KeyMods::none()).unwrap();
    assert_eq!(r.as_str(), "<CR>");
    let r = nvim_event_representation(NvimKeycode::Space, KeyMods::none()).unwrap();
    assert_eq!(r.as_str(), "<Space>");
}

#[test]
fn symbolic_keys_take_prefixes() {
    let m = KeyMods { lctrl: true, lshift: true, ..KeyMods::none() };
    let r = nvim_event_representation(NvimKeycode::Escape, m).unwrap();
    assert_eq!(r.as_str(), "<C-S-Esc>");
}

#[test]
fn caps_lock_inverts_the_shift_sense() {
    let m = KeyMods { lctrl: true, caps: true, ..KeyMods::none() };
    let r = nvim_event_representation(NvimKeycode::B, m).unwrap();
    assert_eq!(r.as_str(), "<C-S-b>");
    let m = KeyMods { lctrl: true, caps: true, lshift: true, ..KeyMods::none() };
    let r = nvim_event_representation(NvimKeycode::B, m).unwrap();
    assert_eq!(r.as_str(), "<C-b>");
}

#[test]
fn right_alt_is_deliberately_ignored() {
    let m = KeyMods { ralt: true, ..KeyMods::none() };
    assert_eq!(nvim_event_representation(NvimKeycode::L, m), None);
}

#[test]
fn less_than_key_is_suppressed_like_a_literal() {
    assert_eq!(nvim_event_representation(NvimKeycode::Less, KeyMods::none()), None);
    assert_eq!(nvim_event_representation(NvimKeycode::Less, shift()), None);
    let r = nvim_event_representation(NvimKeycode::Less, ctrl()).unwrap();
    assert_eq!(r.as_str(), "<C-LT>");
    // the analogous shifted '>' gets no such treatment: it is an ordinary
    // literal, so control is enough and the bracketed form is plain
    let r = nvim_event_representation(NvimKeycode::Greater, ctrl()).unwrap();
    assert_eq!(r.as_str(), "<C->>");
}

#[test]
fn keypad_pairs_keep_their_historical_shape() {
    let r = nvim_event_representation(NvimKeycode::KpDblAmpersand, ctrl()).unwrap();
    assert_eq!(r.as_str(), "<C-&>&");
    let r = nvim_event_representation(NvimKeycode::KpAt, ctrl()).unwrap();
    assert_eq!(r.as_str(), "<C-a>t");
}

#[test]
fn function_keys_past_nine_lost_their_letter() {
    let r = nvim_event_representation(NvimKeycode::F9, KeyMods::none()).unwrap();
    assert_eq!(r.as_str(), "<F9>");
    let r = nvim_event_representation(NvimKeycode::F10, KeyMods::none()).unwrap();
    assert_eq!(r.as_str(), "<10>");
}

#[test]
fn unmapped_keys_yield_nothing() {
    assert_eq!(nvim_event_representation(NvimKeycode::Other, ctrl()), None);
}

#[test]
fn char_representation_covers_the_two_escapes() {
    assert_eq!(nvim_char_representation('<'), Some("<LT>"));
    assert_eq!(nvim_char_representation(' '), Some("<Space>"));
    assert_eq!(nvim_char_representation('a'), None);
    assert_eq!(nvim_char_representation('>'), None);
}

#[test]
fn text_input_escapes_less_than_and_drops_spaces() {
    let chars: Vec<char> = "a<b c".chars().collect();
    let r = nvim_text_input_representation(&chars);
    assert_eq!(r.as_str(), "a<LT>bc");
}

#[test]
fn text_input_passes_unicode_through() {
    let chars: Vec<char> = "λ!".chars().collect();
    let r = nvim_text_input_representation(&chars);
    assert_eq!(r.as_str(), "λ!");
}
