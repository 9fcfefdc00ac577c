//! The discrete verdicts of a token analysis: the lifecycle phase a token's
//! age puts it in, and the alert level, confidence and potential that its
//! total score (taken as a whole number) earns.

use vstd::prelude::*;
use vstd::string::*;
use crate::text::texts;

verus! {

/// Where a token stands in its life since its pair was created.
#[derive(PartialEq, Eq, Structural, Clone, Copy, Debug)]
pub enum LifecyclePhase {
    Launch,
    FirstDip,
    Accumulation,
    Breakout,
    Mature,
}

/// The phase of a token `age_minutes` old: up to 30 minutes its launch, up
/// to 3 hours the first dip, up to 12 hours accumulation, up to 48 hours the
/// breakout, mature after that (and for a negative age).
pub open spec fn phase_of_age(age_minutes: int) -> LifecyclePhase {
    if 0 <= age_minutes <= 30 {
        LifecyclePhase::Launch
    } else if 31 <= age_minutes <= 180 {
        LifecyclePhase::FirstDip
    } else if 181 <= age_minutes <= 720 {
        LifecyclePhase::Accumulation
    } else if 721 <= age_minutes <= 2880 {
        LifecyclePhase::Breakout
    } else {
        LifecyclePhase::Mature
    }
}

/// The lifecycle phase of a token of the given age in minutes.
pub fn phase_for_age(age_minutes: i64) -> (p: LifecyclePhase)
    ensures
        p == phase_of_age(age_minutes as int),
{
    if 0 <= age_minutes && age_minutes <= 30 {
        LifecyclePhase::Launch
    } else if 31 <= age_minutes && age_minutes <= 180 {
        LifecyclePhase::FirstDip
    } else if 181 <= age_minutes && age_minutes <= 720 {
        LifecyclePhase::Accumulation
    } else if 721 <= age_minutes && age_minutes <= 2880 {
        LifecyclePhase::Breakout
    } else {
        LifecyclePhase::Mature
    }
}

impl LifecyclePhase {
    /// The phase's label in alerts.
    pub open spec fn label(self) -> Seq<char> {
        match self {
            LifecyclePhase::Launch => "\u{26a1} Launch Phase (high risk)"@,
            LifecyclePhase::FirstDip => "\u{1f4c9} First Dip (opportunity)"@,
            LifecyclePhase::Accumulation => "\u{1f7e2} Accumulation Phase (ideal entry)"@,
            LifecyclePhase::Breakout => "\u{1f525} Breakout Phase (late entry)"@,
            LifecyclePhase::Mature => "\u{2b1c} Mature (too late)"@,
        }
    }

    /// The phase's label in alerts.
    pub fn to_label(&self) -> (s: &str)
        ensures
            s@ == self.label(),
    {
        match self {
            LifecyclePhase::Launch => "\u{26a1} Launch Phase (high risk)",
            LifecyclePhase::FirstDip => "\u{1f4c9} First Dip (opportunity)",
            LifecyclePhase::Accumulation => "\u{1f7e2} Accumulation Phase (ideal entry)",
            LifecyclePhase::Breakout => "\u{1f525} Breakout Phase (late entry)",
            LifecyclePhase::Mature => "\u{2b1c} Mature (too late)",
        }
    }
}

/// How sure the analysis is of a token.
#[derive(PartialEq, Eq, Structural, Clone, Copy, Debug)]
pub enum ConfidenceLevel {
    VeryHigh,
    High,
    Medium,
    Low,
}

/// How loudly a token is announced.
#[derive(PartialEq, Eq, Structural, Clone, Copy, Debug)]
pub enum AlertLevel {
    Legendary,
    Golden,
    Excellent,
    Normal,
}

/// The tier of a whole score: 3 from 90 up, 2 from 85, 1 from 80, else 0.
pub open spec fn score_tier(score: u32) -> nat {
    if score >= 90 {
        3
    } else if score >= 85 {
        2
    } else if score >= 80 {
        1
    } else {
        0
    }
}

/// The confidence a whole score earns.
pub open spec fn confidence_of(score: u32) -> ConfidenceLevel {
    let t = score_tier(score);
    if t == 3 {
        ConfidenceLevel::VeryHigh
    } else if t == 2 {
        ConfidenceLevel::High
    } else if t == 1 {
        ConfidenceLevel::Medium
    } else {
        ConfidenceLevel::Low
    }
}

/// The alert level a whole score earns.
pub open spec fn alert_level_of(score: u32) -> AlertLevel {
    let t = score_tier(score);
    if t == 3 {
        AlertLevel::Legendary
    } else if t == 2 {
        AlertLevel::Golden
    } else if t == 1 {
        AlertLevel::Excellent
    } else {
        AlertLevel::Normal
    }
}

/// The potential announced for a whole score.
pub open spec fn potential_of(score: u32) -> Seq<char> {
    let t = score_tier(score);
    if t == 3 {
        "50x-100x \u{1f31f}"@
    } else if t == 2 {
        "20x-50x \u{1f48e}"@
    } else if t == 1 {
        "10x-20x \u{1f525}"@
    } else {
        "5x-10x \u{2b50}"@
    }
}

/// The confidence for a score (its whole part).
pub fn confidence_for(score: u32) -> (c: ConfidenceLevel)
    ensures
        c == confidence_of(score),
{
    if score >= 90 {
        ConfidenceLevel::VeryHigh
    } else if score >= 85 {
        ConfidenceLevel::High
    } else if score >= 80 {
        ConfidenceLevel::Medium
    } else {
        ConfidenceLevel::Low
    }
}

/// The alert level for a score (its whole part).
pub fn alert_level_for(score: u32) -> (a: AlertLevel)
    ensures
        a == alert_level_of(score),
{
    if score >= 90 {
        AlertLevel::Legendary
    } else if score >= 85 {
        AlertLevel::Golden
    } else if score >= 80 {
        AlertLevel::Excellent
    } else {
        AlertLevel::Normal
    }
}

/// The potential multiplier announced for a score (its whole part).
pub fn potential_for(score: u32) -> (p: &'static str)
    ensures
        p@ == potential_of(score),
{
    if score >= 90 {
        "50x-100x \u{1f31f}"
    } else if score >= 85 {
        "20x-50x \u{1f48e}"
    } else if score >= 80 {
        "10x-20x \u{1f525}"
    } else {
        "5x-10x \u{2b50}"
    }
}

impl AlertLevel {
    /// The header of an alert of this level.
    pub open spec fn header(self) -> Seq<char> {
        match self {
            AlertLevel::Legendary => "\u{1f451} **LEGENDARY OPPORTUNITY** \u{1f451}"@,
            AlertLevel::Golden => "\u{1f48e} **GOLDEN OPPORTUNITY** \u{1f48e}"@,
            AlertLevel::Excellent => "\u{1f525} **EXCELLENT OPPORTUNITY** \u{1f525}"@,
            AlertLevel::Normal => "\u{2b50} **STANDARD OPPORTUNITY** \u{2b50}"@,
        }
    }

    /// The header of an alert of this level.
    pub fn to_header(&self) -> (s: &str)
        ensures
            s@ == self.header(),
    {
        match self {
            AlertLevel::Legendary => "\u{1f451} **LEGENDARY OPPORTUNITY** \u{1f451}",
            AlertLevel::Golden => "\u{1f48e} **GOLDEN OPPORTUNITY** \u{1f48e}",
            AlertLevel::Excellent => "\u{1f525} **EXCELLENT OPPORTUNITY** \u{1f525}",
            AlertLevel::Normal => "\u{2b50} **STANDARD OPPORTUNITY** \u{2b50}",
        }
    }
}

/// A higher score never earns a lower alert level, confidence or potential.
pub proof fn law_tiers_are_monotone(low: u32, high: u32)
    requires
        low <= high,
    ensures
        score_tier(low) <= score_tier(high),
        score_tier(high) == score_tier(low) ==> alert_level_of(high) == alert_level_of(low)
            && confidence_of(high) == confidence_of(low) && potential_of(high) == potential_of(low),
{
}

/// The lists one after another.
pub open spec fn concatenated(groups: Seq<Seq<Seq<char>>>) -> Seq<Seq<char>>
    decreases groups.len(),
{
    if groups.len() == 0 {
        seq![]
    } else {
        concatenated(groups.drop_last()) + groups.last()
    }
}

/// The texts of each list.
pub open spec fn group_texts(groups: Seq<Vec<String>>) -> Seq<Seq<Seq<char>>> {
    groups.map_values(|g: Vec<String>| texts(g@))
}

/// All entries of the lists, one list after the other (the red flags of an
/// analysis are those of its parts in this way).
pub fn concat_groups(groups: &Vec<Vec<String>>) -> (all: Vec<String>)
    ensures
        texts(all@) == concatenated(group_texts(groups@)),
{
    let ghost gs = group_texts(groups@);
    let mut all: Vec<String> = Vec::new();
    let mut i: usize = 0;
    assert(gs.take(0) =~= Seq::<Seq<Seq<char>>>::empty());
    assert(texts(all@) =~= Seq::<Seq<char>>::empty());
    while i < groups.len()
        invariant
            i <= groups.len(),
            gs == group_texts(groups@),
            texts(all@) == concatenated(gs.take(i as int)),
        decreases groups.len() - i,
    {
        let group = &groups[i];
        let ghost before = texts(all@);
        let mut j: usize = 0;
        while j < group.len()
            invariant
                j <= group.len(),
                group == groups@[i as int],
                texts(all@) == before + texts(group@).take(j as int),
            decreases group.len() - j,
        {
            let ghost prev = texts(all@);
            all.push(group[j].clone());
            assert(texts(all@) =~= prev.push(group@[j as int]@));
            assert(texts(group@).take(j + 1) =~= texts(group@).take(j as int).push(group@[j as int]@));
            j = j + 1;
        }
        assert(texts(group@).take(group@.len() as int) =~= texts(group@));
        assert(gs.take(i + 1).drop_last() =~= gs.take(i as int));
        i = i + 1;
    }
    assert(gs.take(groups@.len() as int) =~= gs);
    all
}

/// The first eight entries of the lists taken one after the other (the top
/// signals of an analysis).
pub fn top_signals(groups: &Vec<Vec<String>>) -> (top: Vec<String>)
    ensures
        texts(top@) == concatenated(group_texts(groups@)).take(
            if concatenated(group_texts(groups@)).len() < 8 { concatenated(group_texts(groups@)).len() as int } else { 8 },
        ),
{
    let mut all = concat_groups(groups);
    let ghost full = texts(all@);
    all.truncate(8);
    assert(texts(all@) =~= full.take(if full.len() < 8 { full.len() as int } else { 8 }));
    all
}

/// Alert level and confidence move together, on the score thresholds 90, 85
/// and 80.
pub proof fn law_score_levels_agree(score: u32)
    ensures
        alert_level_of(score) == AlertLevel::Legendary <==> score >= 90,
        confidence_of(score) == ConfidenceLevel::VeryHigh <==> score >= 90,
        alert_level_of(score) == AlertLevel::Golden <==> 85 <= score < 90,
        confidence_of(score) == ConfidenceLevel::High <==> 85 <= score < 90,
        alert_level_of(score) == AlertLevel::Excellent <==> 80 <= score < 85,
        confidence_of(score) == ConfidenceLevel::Medium <==> 80 <= score < 85,
        alert_level_of(score) == AlertLevel::Normal <==> score < 80,
        confidence_of(score) == ConfidenceLevel::Low <==> score < 80,
{
}

/// A token goes through the phases in order as it ages: launch for its first
/// half hour, first dip to 3 hours, accumulation to 12, breakout to 48, then
/// mature; an older token is never in an earlier phase.
pub proof fn law_phases_follow_age(younger: int, older: int)
    requires
        0 <= younger <= older,
    ensures
        phase_of_age(older) == LifecyclePhase::Launch ==> phase_of_age(younger) == LifecyclePhase::Launch,
        phase_of_age(younger) == LifecyclePhase::Mature ==> phase_of_age(older) == LifecyclePhase::Mature,
        phase_of_age(older) == LifecyclePhase::FirstDip ==> phase_of_age(younger) == LifecyclePhase::Launch
            || phase_of_age(younger) == LifecyclePhase::FirstDip,
        phase_of_age(younger) == LifecyclePhase::Breakout ==> phase_of_age(older) == LifecyclePhase::Breakout
            || phase_of_age(older) == LifecyclePhase::Mature,
        phase_of_age(30) == LifecyclePhase::Launch && phase_of_age(31) == LifecyclePhase::FirstDip,
        phase_of_age(180) == LifecyclePhase::FirstDip && phase_of_age(181) == LifecyclePhase::Accumulation,
        phase_of_age(720) == LifecyclePhase::Accumulation && phase_of_age(721) == LifecyclePhase::Breakout,
        phase_of_age(2880) == LifecyclePhase::Breakout && phase_of_age(2881) == LifecyclePhase::Mature,
        phase_of_age(-1) == LifecyclePhase::Mature,
{
}

} // verus!
