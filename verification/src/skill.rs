//! The skill record the renderer consumes: profession, elite flag, type
//! and description text, and typed resource costs, together with the text
//! and asset-path rules each of them carries.

use crate::strutil::{
    spec_dec, spec_starts_with, spec_trim_end, str_eq, str_starts_with, trim_end_matches_str,
    u8_to_string,
};
use vstd::prelude::*;

verus! {

/// Which game mode a split skill variant belongs to.
#[derive(Clone, Copy, PartialEq, Eq, Structural, Debug)]
pub enum GameMode {
    PvE,
    PvP,
    Codex,
}

/// The profession a skill belongs to.  `Common` stands for no profession.
#[derive(Clone, Copy, PartialEq, Eq, Structural, Debug)]
pub enum Profession {
    Warrior,
    Ranger,
    Monk,
    Necromancer,
    Mesmer,
    Elementalist,
    Assassin,
    Ritualist,
    Paragon,
    Dervish,
    Common,
}

/// The display name of a profession.
pub open spec fn spec_profession_name(p: Profession) -> Seq<char> {
    match p {
        Profession::Warrior => "Warrior"@,
        Profession::Ranger => "Ranger"@,
        Profession::Monk => "Monk"@,
        Profession::Necromancer => "Necromancer"@,
        Profession::Mesmer => "Mesmer"@,
        Profession::Elementalist => "Elementalist"@,
        Profession::Assassin => "Assassin"@,
        Profession::Ritualist => "Ritualist"@,
        Profession::Paragon => "Paragon"@,
        Profession::Dervish => "Dervish"@,
        Profession::Common => "Common"@,
    }
}

/// The profession whose wiki table rows carry `color` as background, if any.
pub open spec fn spec_profession_from_color(color: Seq<char>) -> Option<Profession> {
    if color == "#FFFFCC"@ {
        Some(Profession::Warrior)
    } else if color == "#EEFFCC"@ {
        Some(Profession::Ranger)
    } else if color == "#CCEEFF"@ {
        Some(Profession::Monk)
    } else if color == "#CCFFCC"@ {
        Some(Profession::Necromancer)
    } else if color == "#EEDDFF"@ {
        Some(Profession::Mesmer)
    } else if color == "#FFDDDD"@ {
        Some(Profession::Elementalist)
    } else if color == "#FFEEFF"@ {
        Some(Profession::Assassin)
    } else if color == "#DDFFFF"@ {
        Some(Profession::Ritualist)
    } else if color == "#FFEECC"@ {
        Some(Profession::Paragon)
    } else if color == "#EEEEFF"@ {
        Some(Profession::Dervish)
    } else if color == "#EEEEEE"@ {
        Some(Profession::Common)
    } else {
        None
    }
}

/// The badge icon asset path for a profession: the profession-less
/// (`Common`) case uses the generic icon.
pub open spec fn spec_profession_icon_path(p: Profession) -> Seq<char> {
    "assets/icons/"@ + (if p == Profession::Common {
        "Any"@
    } else {
        spec_profession_name(p)
    }) + "-tango-icon-200.png"@
}

impl Profession {
    /// The badge icon asset path for this profession.
    pub fn icon_path(&self) -> (r: String)
        ensures
            r@ == spec_profession_icon_path(*self),
    {
        let mut path = "assets/icons/".to_owned();
        if *self == Profession::Common {
            path.append("Any");
        } else {
            let name = self.name();
            path.append(name.as_str());
        }
        path.append("-tango-icon-200.png");
        proof {
            assert(path@ =~= spec_profession_icon_path(*self));
        }
        path
    }

    /// The display name of this profession.
    pub fn name(&self) -> (r: String)
        ensures
            r@ == spec_profession_name(*self),
    {
        match self {
            Profession::Warrior => "Warrior".to_owned(),
            Profession::Ranger => "Ranger".to_owned(),
            Profession::Monk => "Monk".to_owned(),
            Profession::Necromancer => "Necromancer".to_owned(),
            Profession::Mesmer => "Mesmer".to_owned(),
            Profession::Elementalist => "Elementalist".to_owned(),
            Profession::Assassin => "Assassin".to_owned(),
            Profession::Ritualist => "Ritualist".to_owned(),
            Profession::Paragon => "Paragon".to_owned(),
            Profession::Dervish => "Dervish".to_owned(),
            Profession::Common => "Common".to_owned(),
        }
    }

    /// Recognizes a profession by the background color of its wiki table.
    pub fn from_table_background_color(color: &str) -> (r: Option<Profession>)
        ensures
            r == spec_profession_from_color(color@),
    {
        if str_eq(color, "#FFFFCC") {
            Some(Profession::Warrior)
        } else if str_eq(color, "#EEFFCC") {
            Some(Profession::Ranger)
        } else if str_eq(color, "#CCEEFF") {
            Some(Profession::Monk)
        } else if str_eq(color, "#CCFFCC") {
            Some(Profession::Necromancer)
        } else if str_eq(color, "#EEDDFF") {
            Some(Profession::Mesmer)
        } else if str_eq(color, "#FFDDDD") {
            Some(Profession::Elementalist)
        } else if str_eq(color, "#FFEEFF") {
            Some(Profession::Assassin)
        } else if str_eq(color, "#DDFFFF") {
            Some(Profession::Ritualist)
        } else if str_eq(color, "#FFEECC") {
            Some(Profession::Paragon)
        } else if str_eq(color, "#EEEEFF") {
            Some(Profession::Dervish)
        } else if str_eq(color, "#EEEEEE") {
            Some(Profession::Common)
        } else {
            None
        }
    }

    /// All professions, in a fixed order, `Common` last.
    pub fn iter() -> (r: Vec<Profession>)
        ensures
            r@ == seq![
                Profession::Warrior,
                Profession::Ranger,
                Profession::Monk,
                Profession::Necromancer,
                Profession::Mesmer,
                Profession::Elementalist,
                Profession::Assassin,
                Profession::Ritualist,
                Profession::Paragon,
                Profession::Dervish,
                Profession::Common,
            ],
    {
        let mut r: Vec<Profession> = Vec::new();
        r.push(Profession::Warrior);
        r.push(Profession::Ranger);
        r.push(Profession::Monk);
        r.push(Profession::Necromancer);
        r.push(Profession::Mesmer);
        r.push(Profession::Elementalist);
        r.push(Profession::Assassin);
        r.push(Profession::Ritualist);
        r.push(Profession::Paragon);
        r.push(Profession::Dervish);
        r.push(Profession::Common);
        proof {
            assert(r@ =~= seq![
                Profession::Warrior,
                Profession::Ranger,
                Profession::Monk,
                Profession::Necromancer,
                Profession::Mesmer,
                Profession::Elementalist,
                Profession::Assassin,
                Profession::Ritualist,
                Profession::Paragon,
                Profession::Dervish,
                Profession::Common,
            ]);
        }
        r
    }
}

/// One typed gameplay cost of a skill.  A cast time is held in quarter
/// seconds, so every drawn value is exact integer data.
#[derive(Clone, Copy, PartialEq, Eq, Structural, Debug)]
pub enum Resource {
    Recharge(u8),
    /// Cast time in quarter seconds.
    Cast(u8),
    Energy(u8),
    Adrenaline(u8),
    Overcast(u8),
    Upkeep(i8),
    Sacrifice(u8),
}

/// The text drawn for a cast time of `q` quarter seconds: whole seconds,
/// then `.25`, `.5` or `.75` for the fraction.
pub open spec fn spec_cast_text(q: int) -> Seq<char> {
    spec_dec(q / 4) + (if q % 4 == 0 {
        Seq::empty()
    } else if q % 4 == 1 {
        ".25"@
    } else if q % 4 == 2 {
        ".5"@
    } else {
        ".75"@
    })
}

/// The text drawn beside a resource icon.
pub open spec fn spec_text_value(r: Resource) -> Seq<char> {
    match r {
        Resource::Cast(q) => spec_cast_text(q as int),
        Resource::Upkeep(_) => "-1"@,
        Resource::Recharge(v) => spec_dec(v as int),
        Resource::Energy(v) => spec_dec(v as int),
        Resource::Adrenaline(v) => spec_dec(v as int),
        Resource::Overcast(v) => spec_dec(v as int),
        Resource::Sacrifice(v) => spec_dec(v as int) + "%"@,
    }
}

/// A resource's drawn text is short: at most eight characters.
pub proof fn lemma_text_value_len(r: Resource)
    ensures
        spec_text_value(r).len() <= 8,
{
    reveal_strlit("-1");
    reveal_strlit("%");
    reveal_strlit(".25");
    reveal_strlit(".5");
    reveal_strlit(".75");
}

/// The icon asset path for a resource kind.
pub open spec fn spec_resource_icon_path(r: Resource) -> Seq<char> {
    "assets/icons/Tango-"@ + (match r {
        Resource::Adrenaline(_) => "adrenaline"@,
        Resource::Energy(_) => "energy"@,
        Resource::Cast(_) => "activation-darker"@,
        Resource::Recharge(_) => "recharge-darker"@,
        Resource::Sacrifice(_) => "sacrifice"@,
        Resource::Upkeep(_) => "upkeep"@,
        Resource::Overcast(_) => "overcast"@,
    }) + ".png"@
}

impl Resource {
    /// The text drawn beside this resource's icon: an upkeep is always
    /// `-1`, a sacrifice a percentage, a cast time fractional seconds, the
    /// rest a plain number.
    pub fn text_value(&self) -> (r: String)
        ensures
            r@ == spec_text_value(*self),
    {
        match self {
            Resource::Cast(q) => {
                let mut s = u8_to_string(q / 4);
                if q % 4 == 1 {
                    s.append(".25");
                } else if q % 4 == 2 {
                    s.append(".5");
                } else if q % 4 == 3 {
                    s.append(".75");
                }
                proof {
                    assert(s@ =~= spec_cast_text(*q as int));
                }
                s
            },
            Resource::Upkeep(_) => "-1".to_owned(),
            Resource::Recharge(v) => u8_to_string(*v),
            Resource::Energy(v) => u8_to_string(*v),
            Resource::Adrenaline(v) => u8_to_string(*v),
            Resource::Overcast(v) => u8_to_string(*v),
            Resource::Sacrifice(v) => {
                let mut s = u8_to_string(*v);
                s.append("%");
                s
            },
        }
    }

    /// The icon asset path for this resource kind.
    pub fn icon_path(&self) -> (r: String)
        ensures
            r@ == spec_resource_icon_path(*self),
    {
        let mut s = "assets/icons/Tango-".to_owned();
        match self {
            Resource::Adrenaline(_) => s.append("adrenaline"),
            Resource::Energy(_) => s.append("energy"),
            Resource::Cast(_) => s.append("activation-darker"),
            Resource::Recharge(_) => s.append("recharge-darker"),
            Resource::Sacrifice(_) => s.append("sacrifice"),
            Resource::Upkeep(_) => s.append("upkeep"),
            Resource::Overcast(_) => s.append("overcast"),
        }
        s.append(".png");
        s
    }
}


/// The mathematical value of a skill record: every text as a character
/// sequence, everything else as itself.
pub ghost struct SkillView {
    pub icon_url: Seq<char>,
    pub name: Seq<char>,
    pub profession: Profession,
    pub attribute: Option<Seq<char>>,
    pub skill_type: Seq<char>,
    pub description: Seq<char>,
    pub resources: Seq<Resource>,
    pub is_quest_reward: bool,
    pub campaign: Seq<char>,
    pub split_by_game_mode: Option<GameMode>,
    pub is_pve_only: bool,
    pub is_elite: bool,
}

/// One skill as the collaborator layer hands it over: already parsed,
/// with resolved texts and typed resource costs.
#[derive(Debug)]
pub struct Skill {
    pub icon_url: String,
    pub name: String,
    pub profession: Profession,
    pub attribute: Option<String>,
    pub skill_type: String,
    pub description: String,
    pub resources: Vec<Resource>,
    pub is_quest_reward: bool,
    pub campaign: String,
    pub split_by_game_mode: Option<GameMode>,
    pub is_pve_only: bool,
    pub is_elite: bool,
}

impl View for Skill {
    type V = SkillView;

    open spec fn view(&self) -> SkillView {
        SkillView {
            icon_url: self.icon_url@,
            name: self.name@,
            profession: self.profession,
            attribute: match self.attribute {
                Some(a) => Some(a@),
                None => None,
            },
            skill_type: self.skill_type@,
            description: self.description@,
            resources: self.resources@,
            is_quest_reward: self.is_quest_reward,
            campaign: self.campaign@,
            split_by_game_mode: self.split_by_game_mode,
            is_pve_only: self.is_pve_only,
            is_elite: self.is_elite,
        }
    }
}

/// The type line drawn under the title: elite marker, profession, PvE
/// marker, the skill type, and the attribute (with a trailing " rank"
/// stripped) in parentheses.
pub open spec fn spec_type_line(s: SkillView) -> Seq<char> {
    (if s.is_elite {
        "Elite "@
    } else {
        Seq::empty()
    }) + (if s.profession != Profession::Common {
        spec_profession_name(s.profession) + " "@
    } else {
        Seq::empty()
    }) + (if s.is_pve_only {
        "PvE "@
    } else {
        Seq::empty()
    }) + s.skill_type + (match s.attribute {
        Some(a) => " ("@ + spec_trim_end(a, " rank"@) + ")"@,
        None => Seq::empty(),
    })
}

/// The `-Kurzick` / `-Luxon` file-name suffix of an allegiance-split
/// skill, empty for all others.
pub open spec fn spec_allegiance_suffix(s: SkillView) -> Seq<char> {
    match s.attribute {
        Some(a) => if spec_starts_with(a, "Kurzick"@) {
            "-Kurzick"@
        } else if spec_starts_with(a, "Luxon"@) {
            "-Luxon"@
        } else {
            Seq::empty()
        },
        None => Seq::empty(),
    }
}

/// Where the skill's downloaded art icon lives.
pub open spec fn spec_icon_path(s: SkillView) -> Seq<char> {
    "cache/images/"@ + s.name + spec_allegiance_suffix(s) + ".jpg"@
}

/// Where the skill's finished card is written.
pub open spec fn spec_card_path(s: SkillView) -> Seq<char> {
    "cards/"@ + s.name + spec_allegiance_suffix(s) + ".jpg"@
}

impl Skill {
    /// Builds the type line drawn under the title.
    pub fn type_line(&self) -> (r: String)
        ensures
            r@ == spec_type_line(self@),
    {
        let mut line = String::new();
        if self.is_elite {
            line.append("Elite ");
        }
        if self.profession != Profession::Common {
            let name = self.profession.name();
            line.append(name.as_str());
            line.append(" ");
        }
        if self.is_pve_only {
            line.append("PvE ");
        }
        line.append(self.skill_type.as_str());
        match &self.attribute {
            Some(attribute) => {
                line.append(" (");
                proof {
                    reveal_strlit(" rank");
                }
                line.append(trim_end_matches_str(attribute.as_str(), " rank"));
                line.append(")");
            },
            None => {},
        }
        proof {
            assert(line@ =~= spec_type_line(self@));
        }
        line
    }

    /// Is this record a PvP-only or Codex-only variant of a skill?
    pub fn is_pvp_variant(&self) -> (r: bool)
        ensures
            r == spec_is_pvp_variant(self@),
    {
        match self.split_by_game_mode {
            Some(GameMode::PvP) => true,
            Some(GameMode::Codex) => true,
            _ => false,
        }
    }

    /// Where this skill's downloaded art icon lives.
    pub fn icon_path(&self) -> (r: String)
        ensures
            r@ == spec_icon_path(self@),
    {
        let mut path = "cache/images/".to_owned();
        path.append(self.name.as_str());
        path.append(self.allegiance_suffix());
        path.append(".jpg");
        proof {
            assert(path@ =~= spec_icon_path(self@));
        }
        path
    }

    /// Where this skill's finished card is written.
    pub fn card_path(&self) -> (r: String)
        ensures
            r@ == spec_card_path(self@),
    {
        let mut path = "cards/".to_owned();
        path.append(self.name.as_str());
        path.append(self.allegiance_suffix());
        path.append(".jpg");
        proof {
            assert(path@ =~= spec_card_path(self@));
        }
        path
    }

    /// The `-Kurzick` / `-Luxon` file-name suffix of an allegiance-split
    /// skill.
    fn allegiance_suffix(&self) -> (r: &'static str)
        ensures
            r@ == spec_allegiance_suffix(self@),
    {
        match &self.attribute {
            Some(attribute) => {
                if str_starts_with(attribute.as_str(), "Kurzick") {
                    "-Kurzick"
                } else if str_starts_with(attribute.as_str(), "Luxon") {
                    "-Luxon"
                } else {
                    proof {
                        reveal_strlit("");
                    }
                    assert(""@ =~= Seq::<char>::empty());
                    ""
                }
            },
            None => {
                proof {
                    reveal_strlit("");
                }
                assert(""@ =~= Seq::<char>::empty());
                ""
            },
        }
    }
}

impl Clone for Skill {
    /// A clone carries the same skill value.
    fn clone(&self) -> (r: Self)
        ensures
            r@ == self@,
    {
        let mut resources: Vec<Resource> = Vec::new();
        let mut i: usize = 0;
        while i < self.resources.len()
            invariant
                i <= self.resources@.len(),
                resources@ == self.resources@.take(i as int),
            decreases self.resources@.len() - i,
        {
            resources.push(self.resources[i]);
            proof {
                assert(resources@ =~= self.resources@.take(i + 1));
            }
            i = i + 1;
        }
        proof {
            assert(self.resources@.take(self.resources@.len() as int) =~= self.resources@);
        }
        Skill {
            icon_url: self.icon_url.clone(),
            name: self.name.clone(),
            profession: self.profession,
            attribute: match &self.attribute {
                Some(a) => Some(a.clone()),
                None => None,
            },
            skill_type: self.skill_type.clone(),
            description: self.description.clone(),
            resources,
            is_quest_reward: self.is_quest_reward,
            campaign: self.campaign.clone(),
            split_by_game_mode: self.split_by_game_mode,
            is_pve_only: self.is_pve_only,
            is_elite: self.is_elite,
        }
    }
}


/// Is `s` a PvP-only or Codex-only variant?
pub open spec fn spec_is_pvp_variant(s: SkillView) -> bool {
    s.split_by_game_mode == Some(GameMode::PvP) || s.split_by_game_mode == Some(GameMode::Codex)
}

/// Does `s` carry an Allegiance-rank attribute (a Kurzick/Luxon skill)?
pub open spec fn spec_is_allegiance_rank(s: SkillView) -> bool {
    match s.attribute {
        Some(a) => spec_starts_with(a, "Allegiance"@),
        None => false,
    }
}

/// Does some PvP or Codex variant in `skills` bear `name`?  The regular
/// Charm Animal is usable in both modes, so its Codex variant never marks
/// it.
pub open spec fn spec_pvp_name_marked(skills: Seq<SkillView>, name: Seq<char>) -> bool {
    exists|k: int|
        0 <= k < skills.len() && spec_is_pvp_variant(#[trigger] skills[k]) && skills[k].name
            != "Charm Animal"@ && skills[k].name == name
}

/// `s` marked as the PvE half of a split skill.
pub open spec fn spec_with_pve_mode(s: SkillView) -> SkillView {
    SkillView { split_by_game_mode: Some(GameMode::PvE), ..s }
}

/// `s` as its Kurzick variant.
pub open spec fn spec_as_kurzick(s: SkillView) -> SkillView {
    SkillView { attribute: Some("Kurzick rank"@), ..s }
}

/// `s` as its Luxon variant.
pub open spec fn spec_as_luxon(s: SkillView) -> SkillView {
    SkillView { attribute: Some("Luxon rank"@), ..s }
}

/// Every unsplit skill that also exists as a PvP or Codex variant, marked
/// as the PvE half.
pub open spec fn spec_mark_stage(skills: Seq<SkillView>) -> Seq<SkillView> {
    skills.map_values(
        |s: SkillView|
            if s.split_by_game_mode is None && spec_pvp_name_marked(skills, s.name) {
                spec_with_pve_mode(s)
            } else {
                s
            },
    )
}

/// The whole touch-up: PvE halves marked, every Allegiance-rank skill
/// turned into its Kurzick variant in place, and one Luxon variant per
/// such skill appended at the end, in order.
pub open spec fn spec_touch_up(skills: Seq<SkillView>) -> Seq<SkillView> {
    let marked = spec_mark_stage(skills);
    marked.map_values(
        |s: SkillView|
            if spec_is_allegiance_rank(s) {
                spec_as_kurzick(s)
            } else {
                s
            },
    ) + marked.filter(|s: SkillView| spec_is_allegiance_rank(s)).map_values(
        |s: SkillView| spec_as_luxon(s),
    )
}

/// Does this skill carry an Allegiance-rank attribute?
pub fn is_allegiance_rank(skill: &Skill) -> (r: bool)
    ensures
        r == spec_is_allegiance_rank(skill@),
{
    match &skill.attribute {
        Some(attribute) => str_starts_with(attribute.as_str(), "Allegiance"),
        None => false,
    }
}

/// Does some PvP or Codex variant in `skills` bear `name`?
fn pvp_name_marked(skills: &Vec<Skill>, name: &String) -> (r: bool)
    ensures
        r == spec_pvp_name_marked(skills@.map_values(|s: Skill| s@), name@),
{
    let ghost views = skills@.map_values(|s: Skill| s@);
    let mut k: usize = 0;
    while k < skills.len()
        invariant
            k <= skills@.len(),
            views == skills@.map_values(|s: Skill| s@),
            forall|j: int|
                0 <= j < k ==> !(spec_is_pvp_variant(#[trigger] views[j]) && views[j].name
                    != "Charm Animal"@ && views[j].name == name@),
        decreases skills@.len() - k,
    {
        let candidate = &skills[k];
        proof {
            assert(views[k as int] == skills@[k as int]@);
        }
        if candidate.is_pvp_variant() && !str_eq(candidate.name.as_str(), "Charm Animal") && str_eq(
            candidate.name.as_str(),
            name.as_str(),
        ) {
            proof {
                assert(spec_is_pvp_variant(views[k as int]) && views[k as int].name
                    != "Charm Animal"@ && views[k as int].name == name@);
            }
            return true;
        }
        k = k + 1;
    }
    false
}

/// Mapping to views commutes with appending one element.
proof fn lemma_map_views_push(v: Seq<Skill>, s: Skill)
    ensures
        v.push(s).map_values(|x: Skill| x@) == v.map_values(|x: Skill| x@).push(s@),
{
    assert(v.push(s).map_values(|x: Skill| x@) =~= v.map_values(|x: Skill| x@).push(s@));
}

/// Prepares raw skill records for rendering: marks the PvE half of every
/// split skill, and doubles each Allegiance-rank skill into a Kurzick
/// variant (in place) and a Luxon variant (appended).
pub fn touch_up_skills(skills: Vec<Skill>) -> (r: Vec<Skill>)
    ensures
        r@.map_values(|s: Skill| s@) == spec_touch_up(skills@.map_values(|s: Skill| s@)),
{
    let ghost views = skills@.map_values(|s: Skill| s@);
    let ghost marked_spec = spec_mark_stage(views);
    let mut marked: Vec<Skill> = Vec::new();
    let mut i: usize = 0;
    while i < skills.len()
        invariant
            i <= skills@.len(),
            views == skills@.map_values(|s: Skill| s@),
            marked_spec == spec_mark_stage(views),
            marked@.map_values(|s: Skill| s@) == marked_spec.take(i as int),
        decreases skills@.len() - i,
    {
        let mut s = skills[i].clone();
        proof {
            assert(views[i as int] == skills@[i as int]@);
            assert(s@ == views[i as int]);
            assert(marked_spec[i as int] == if views[i as int].split_by_game_mode is None
                && spec_pvp_name_marked(views, views[i as int].name) {
                spec_with_pve_mode(views[i as int])
            } else {
                views[i as int]
            });
        }
        let unsplit = match s.split_by_game_mode {
            None => true,
            Some(_) => false,
        };
        if unsplit && pvp_name_marked(&skills, &s.name) {
            s.split_by_game_mode = Some(GameMode::PvE);
            proof {
                assert(s@ == spec_with_pve_mode(views[i as int]));
            }
        }
        proof {
            assert(s@ == marked_spec[i as int]);
        }
        let ghost marked0 = marked@;
        marked.push(s);
        proof {
            lemma_map_views_push(marked0, s);
            assert(marked@.map_values(|s: Skill| s@) =~= marked_spec.take(i + 1));
        }
        i = i + 1;
    }
    proof {
        assert(marked_spec.take(views.len() as int) =~= marked_spec);
    }
    let ghost kurzick_spec = marked_spec.map_values(
        |s: SkillView|
            if spec_is_allegiance_rank(s) {
                spec_as_kurzick(s)
            } else {
                s
            },
    );
    let ghost luxon_spec = marked_spec.filter(|s: SkillView| spec_is_allegiance_rank(s)).map_values(
        |s: SkillView| spec_as_luxon(s),
    );
    let mut out: Vec<Skill> = Vec::new();
    let mut luxons: Vec<Skill> = Vec::new();
    let mut i: usize = 0;
    while i < marked.len()
        invariant
            i <= marked@.len(),
            marked@.map_values(|s: Skill| s@) == marked_spec,
            out@.map_values(|s: Skill| s@) == kurzick_spec.take(i as int),
            luxons@.map_values(|s: Skill| s@) == marked_spec.take(i as int).filter(
                |s: SkillView| spec_is_allegiance_rank(s),
            ).map_values(|s: SkillView| spec_as_luxon(s)),
            kurzick_spec == marked_spec.map_values(
                |s: SkillView|
                    if spec_is_allegiance_rank(s) {
                        spec_as_kurzick(s)
                    } else {
                        s
                    },
            ),
        decreases marked@.len() - i,
    {
        let s = marked[i].clone();
        proof {
            assert(marked@.map_values(|s: Skill| s@)[i as int] == marked@[i as int]@);
            assert(s@ == marked_spec[i as int]);
            assert(kurzick_spec[i as int] == if spec_is_allegiance_rank(marked_spec[i as int]) {
                spec_as_kurzick(marked_spec[i as int])
            } else {
                marked_spec[i as int]
            });
            assert(marked_spec.take(i + 1).drop_last() =~= marked_spec.take(i as int));
            assert(marked_spec.take(i + 1).last() == marked_spec[i as int]);
            reveal(Seq::filter);
        }
        let ghost out0 = out@;
        let ghost luxons0 = luxons@;
        if is_allegiance_rank(&s) {
            let mut kurzick = s.clone();
            kurzick.attribute = Some("Kurzick rank".to_owned());
            proof {
                assert(kurzick@ == spec_as_kurzick(marked_spec[i as int]));
            }
            out.push(kurzick);
            let mut luxon = s;
            luxon.attribute = Some("Luxon rank".to_owned());
            proof {
                assert(luxon@ == spec_as_luxon(marked_spec[i as int]));
            }
            luxons.push(luxon);
            proof {
                lemma_map_views_push(out0, kurzick);
                lemma_map_views_push(luxons0, luxon);
                assert(marked_spec.take(i + 1).filter(|s: SkillView| spec_is_allegiance_rank(s))
                    =~= marked_spec.take(i as int).filter(
                    |s: SkillView| spec_is_allegiance_rank(s),
                ).push(marked_spec[i as int]));
            }
        } else {
            out.push(s);
            proof {
                lemma_map_views_push(out0, s);
                assert(marked_spec.take(i + 1).filter(|s: SkillView| spec_is_allegiance_rank(s))
                    =~= marked_spec.take(i as int).filter(
                    |s: SkillView| spec_is_allegiance_rank(s),
                ));
            }
        }
        proof {
            assert(out@.map_values(|s: Skill| s@) =~= kurzick_spec.take(i + 1));
            assert(luxons@.map_values(|s: Skill| s@) =~= marked_spec.take(i + 1).filter(
                |s: SkillView| spec_is_allegiance_rank(s),
            ).map_values(|s: SkillView| spec_as_luxon(s)));
        }
        i = i + 1;
    }
    proof {
        assert(marked_spec.take(marked_spec.len() as int) =~= marked_spec);
        assert(kurzick_spec.take(kurzick_spec.len() as int) =~= kurzick_spec);
    }
    out.append(&mut luxons);
    proof {
        assert(out@.map_values(|s: Skill| s@) =~= kurzick_spec + luxon_spec);
    }
    out
}

} // verus!
