//! Skill records: resource text and icons, type lines, paths, and the
//! touch-up pass over a parsed skill list.

use skill_cards::skill::{
    is_allegiance_rank, touch_up_skills, GameMode, Profession, Resource, Skill,
};

fn base_skill(name: &str) -> Skill {
    Skill {
        icon_url: String::new(),
        name: name.to_string(),
        profession: Profession::Elementalist,
        attribute: Some("Fire Magic".to_string()),
        skill_type: "Spell".to_string(),
        description: "Target foe is struck for fire damage.".to_string(),
        resources: vec![Resource::Energy(10)],
        is_quest_reward: false,
        campaign: "Core".to_string(),
        split_by_game_mode: None,
        is_pve_only: false,
        is_elite: false,
    }
}

#[test]
fn resource_text_values() {
    assert_eq!(Resource::Energy(10).text_value(), "10");
    assert_eq!(Resource::Energy(5).text_value(), "5");
    assert_eq!(Resource::Adrenaline(8).text_value(), "8");
    assert_eq!(Resource::Recharge(30).text_value(), "30");
    assert_eq!(Resource::Overcast(115).text_value(), "115");
    assert_eq!(Resource::Upkeep(-1).text_value(), "-1");
    assert_eq!(Resource::Sacrifice(17).text_value(), "17%");
}

#[test]
fn cast_time_text_values() {
    // Cast times are quarter seconds.
    assert_eq!(Resource::Cast(1).text_value(), "0.25");
    assert_eq!(Resource::Cast(2).text_value(), "0.5");
    assert_eq!(Resource::Cast(3).text_value(), "0.75");
    assert_eq!(Resource::Cast(4).text_value(), "1");
    assert_eq!(Resource::Cast(6).text_value(), "1.5");
    assert_eq!(Resource::Cast(12).text_value(), "3");
}

#[test]
fn resource_icon_paths() {
    assert_eq!(Resource::Energy(10).icon_path(), "assets/icons/Tango-energy.png");
    assert_eq!(Resource::Adrenaline(4).icon_path(), "assets/icons/Tango-adrenaline.png");
    assert_eq!(Resource::Cast(4).icon_path(), "assets/icons/Tango-activation-darker.png");
    assert_eq!(Resource::Recharge(5).icon_path(), "assets/icons/Tango-recharge-darker.png");
    assert_eq!(Resource::Sacrifice(10).icon_path(), "assets/icons/Tango-sacrifice.png");
    assert_eq!(Resource::Upkeep(-1).icon_path(), "assets/icons/Tango-upkeep.png");
    assert_eq!(Resource::Overcast(10).icon_path(), "assets/icons/Tango-overcast.png");
}

#[test]
fn type_line_plain() {
    let s = base_skill("Fireball");
    assert_eq!(s.type_line(), "Elementalist Spell (Fire Magic)");
}

#[test]
fn type_line_elite_pve_and_rank() {
    let mut s = base_skill("Ursan Blessing");
    s.profession = Profession::Common;
    s.is_elite = true;
    s.is_pve_only = true;
    s.skill_type = "Form".to_string();
    s.attribute = Some("Norn rank".to_string());
    // Common adds no profession name, and a " rank" suffix is stripped.
    assert_eq!(s.type_line(), "Elite PvE Form (Norn)");
}

#[test]
fn type_line_without_attribute() {
    let mut s = base_skill("Frenzy");
    s.profession = Profession::Warrior;
    s.skill_type = "Stance".to_string();
    s.attribute = None;
    assert_eq!(s.type_line(), "Warrior Stance");
}

#[test]
fn skill_paths() {
    let s = base_skill("Fireball");
    assert_eq!(s.icon_path(), "cache/images/Fireball.jpg");
    assert_eq!(s.card_path(), "cards/Fireball.jpg");
}

#[test]
fn skill_paths_with_allegiance() {
    let mut s = base_skill("Ether Nightmare");
    s.attribute = Some("Kurzick rank".to_string());
    assert_eq!(s.icon_path(), "cache/images/Ether Nightmare-Kurzick.jpg");
    assert_eq!(s.card_path(), "cards/Ether Nightmare-Kurzick.jpg");
    s.attribute = Some("Luxon rank".to_string());
    assert_eq!(s.card_path(), "cards/Ether Nightmare-Luxon.jpg");
}

#[test]
fn pvp_variants() {
    let mut s = base_skill("Fireball");
    assert!(!s.is_pvp_variant());
    s.split_by_game_mode = Some(GameMode::PvP);
    assert!(s.is_pvp_variant());
    s.split_by_game_mode = Some(GameMode::Codex);
    assert!(s.is_pvp_variant());
    s.split_by_game_mode = Some(GameMode::PvE);
    assert!(!s.is_pvp_variant());
}

#[test]
fn profession_from_color() {
    assert_eq!(Profession::from_table_background_color("#FFFFCC"), Some(Profession::Warrior));
    assert_eq!(Profession::from_table_background_color("#EEEEEE"), Some(Profession::Common));
    assert_eq!(Profession::from_table_background_color("#DDFFFF"), Some(Profession::Ritualist));
    assert_eq!(Profession::from_table_background_color("#123456"), None);
}

#[test]
fn profession_badge_icon_paths() {
    assert_eq!(Profession::Warrior.icon_path(), "assets/icons/Warrior-tango-icon-200.png");
    // The profession-less case falls back to the generic icon.
    assert_eq!(Profession::Common.icon_path(), "assets/icons/Any-tango-icon-200.png");
}

#[test]
fn profession_iteration_and_names() {
    let all = Profession::iter();
    assert_eq!(all.len(), 11);
    assert_eq!(all[0], Profession::Warrior);
    assert_eq!(all[10], Profession::Common);
    assert_eq!(Profession::Necromancer.name(), "Necromancer");
    assert_eq!(Profession::Common.name(), "Common");
}

#[test]
fn touch_up_marks_pve_half_of_split_skills() {
    let mut pvp = base_skill("Shadow Form");
    pvp.split_by_game_mode = Some(GameMode::PvP);
    let unsplit = base_skill("Shadow Form");
    let other = base_skill("Flare");
    let out = touch_up_skills(vec![pvp, unsplit, other]);
    assert_eq!(out.len(), 3);
    // The PvP record keeps its mode, the unsplit twin becomes the PvE
    // half, the unrelated skill stays untouched.
    assert_eq!(out[0].split_by_game_mode, Some(GameMode::PvP));
    assert_eq!(out[1].split_by_game_mode, Some(GameMode::PvE));
    assert_eq!(out[2].split_by_game_mode, None);
}

#[test]
fn touch_up_leaves_charm_animal_alone() {
    let mut codex = base_skill("Charm Animal");
    codex.split_by_game_mode = Some(GameMode::Codex);
    let regular = base_skill("Charm Animal");
    let out = touch_up_skills(vec![codex, regular]);
    assert_eq!(out[1].split_by_game_mode, None);
}

#[test]
fn touch_up_doubles_allegiance_skills() {
    let mut allegiance = base_skill("Ether Nightmare");
    allegiance.attribute = Some("Allegiance rank".to_string());
    assert!(is_allegiance_rank(&allegiance));
    let plain = base_skill("Flare");
    assert!(!is_allegiance_rank(&plain));
    let out = touch_up_skills(vec![allegiance, plain]);
    // The allegiance skill becomes its Kurzick variant in place and a
    // Luxon variant is appended at the end.
    assert_eq!(out.len(), 3);
    assert_eq!(out[0].name, "Ether Nightmare");
    assert_eq!(out[0].attribute.as_deref(), Some("Kurzick rank"));
    assert_eq!(out[1].name, "Flare");
    assert_eq!(out[2].name, "Ether Nightmare");
    assert_eq!(out[2].attribute.as_deref(), Some("Luxon rank"));
}
