use thing_protector::model::{FiendName, Message};
use thing_protector::text::decimal;

fn name() -> FiendName {
    FiendName { prefix: "greater ", name: "kobold", suffix: None }
}

#[test]
fn decimal_writes_numbers_as_std_does() {
    for n in (0..2000).chain([9_999, 10_000, 123_456_789, usize::MAX - 1, usize::MAX]) {
        assert_eq!(decimal(n), n.to_string());
    }
}

#[test]
fn names_are_title_species_and_epithet() {
    assert_eq!(name().text(), "greater kobold");
    assert_eq!(FiendName { prefix: "", name: "vile", suffix: None }.text(), "vile");
    assert_eq!(
        FiendName { prefix: "Lord ", name: "Foul", suffix: Some(" the Despirer") }.text(),
        "Lord Foul the Despirer"
    );
    assert_eq!(
        FiendName { prefix: "Darth ", name: "Vain", suffix: Some("-cro") }.text(),
        "Darth Vain-cro"
    );
}

#[test]
fn blows_are_told_with_what_is_left() {
    assert_eq!(
        Message::Hit { name: name(), damage: 4, health: 11, max_health: 15 }.text(),
        "greater kobold is hit for 4 damage! (11 / 15)"
    );
    assert_eq!(
        Message::Hit { name: name(), damage: 40, health: 0, max_health: 15 }.text(),
        "greater kobold is hit for 40 damage! (dead!)"
    );
    assert_eq!(
        Message::Shot { name: name(), damage: 300, health: 700, max_health: 1000 }.text(),
        "greater kobold is shot for 300 damage! (700 / 1000)"
    );
    assert_eq!(
        Message::Shot { name: name(), damage: 300, health: 0, max_health: 15 }.text(),
        "greater kobold is shot for 300 damage! (dead!)"
    );
}

#[test]
fn arrivals_take_an_article_unless_the_name_is_proper() {
    assert_eq!(
        Message::Appears { name: name(), proper: false }.text(),
        "A greater kobold appears!"
    );
    let boss = FiendName { prefix: "Ur-Lord ", name: "Morgoth", suffix: Some(" the Grim") };
    assert_eq!(
        Message::Appears { name: boss, proper: true }.text(),
        "Ur-Lord Morgoth the Grim appears!"
    );
}
