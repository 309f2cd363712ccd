//! The salience vector and the rule by which a matched heuristic raises it.

use crate::heuristic::CachedHeuristic;
use crate::scalar::Scalar;
use vstd::prelude::*;

verus! {

/// Importance of an event along nine axes, each a value in the unit interval.
#[derive(Clone, Copy, Debug, PartialEq, Eq, Structural)]
pub struct SalienceVector {
    pub threat: Scalar,
    pub opportunity: Scalar,
    pub humor: Scalar,
    pub novelty: Scalar,
    pub goal_relevance: Scalar,
    pub social: Scalar,
    pub emotional: Scalar,
    pub actionability: Scalar,
    pub habituation: Scalar,
}

/// The boosts that a heuristic applies on a match: for each axis either a value
/// or nothing.
#[derive(Clone, Copy, Debug, PartialEq, Eq, Structural)]
pub struct SalienceBoost {
    pub threat: Option<Scalar>,
    pub opportunity: Option<Scalar>,
    pub humor: Option<Scalar>,
    pub novelty: Option<Scalar>,
    pub goal_relevance: Option<Scalar>,
    pub social: Option<Scalar>,
    pub emotional: Option<Scalar>,
    pub actionability: Option<Scalar>,
    pub habituation: Option<Scalar>,
}

/// One axis after a boost: the larger of the current value and the boost when
/// the boost is a value of the unit interval, the current value otherwise.
pub open spec fn boosted(current: Scalar, boost: Option<Scalar>) -> Scalar {
    match boost {
        Some(b) => if b.is_unit() {
            current.spec_max(b)
        } else {
            current
        },
        None => current,
    }
}

/// A vector after a boost, axis by axis.
pub open spec fn merged(v: SalienceVector, b: SalienceBoost) -> SalienceVector {
    SalienceVector {
        threat: boosted(v.threat, b.threat),
        opportunity: boosted(v.opportunity, b.opportunity),
        humor: boosted(v.humor, b.humor),
        novelty: boosted(v.novelty, b.novelty),
        goal_relevance: boosted(v.goal_relevance, b.goal_relevance),
        social: boosted(v.social, b.social),
        emotional: boosted(v.emotional, b.emotional),
        actionability: boosted(v.actionability, b.actionability),
        habituation: boosted(v.habituation, b.habituation),
    }
}

impl SalienceVector {
    /// Every axis holds a value of the unit interval.
    pub open spec fn is_valid(self) -> bool {
        &&& self.threat.is_unit()
        &&& self.opportunity.is_unit()
        &&& self.humor.is_unit()
        &&& self.novelty.is_unit()
        &&& self.goal_relevance.is_unit()
        &&& self.social.is_unit()
        &&& self.emotional.is_unit()
        &&& self.actionability.is_unit()
        &&& self.habituation.is_unit()
    }

    /// The vector that an evaluation starts from: zero on every axis but
    /// novelty, which starts at `novelty`.
    pub open spec fn spec_baseline(novelty: Scalar) -> SalienceVector {
        let zero = Scalar { bits: 0 };
        SalienceVector {
            threat: zero,
            opportunity: zero,
            humor: zero,
            novelty,
            goal_relevance: zero,
            social: zero,
            emotional: zero,
            actionability: zero,
            habituation: zero,
        }
    }

    #[verifier::when_used_as_spec(spec_baseline)]
    pub fn baseline(novelty: Scalar) -> (v: SalienceVector)
        ensures
            v == Self::spec_baseline(novelty),
    {
        let zero = Scalar::zero();
        SalienceVector {
            threat: zero,
            opportunity: zero,
            humor: zero,
            novelty,
            goal_relevance: zero,
            social: zero,
            emotional: zero,
            actionability: zero,
            habituation: zero,
        }
    }

    /// Raises novelty to `boost` where that is larger; the other axes stay.
    pub fn raise_novelty(&mut self, boost: Scalar)
        ensures
            *final(self) == (SalienceVector {
                novelty: old(self).novelty.spec_max(boost),
                ..*old(self)
            }),
    {
        self.novelty = self.novelty.max(boost);
    }
}

impl SalienceBoost {
    /// The boost that leaves every axis as it is.
    pub open spec fn spec_none() -> SalienceBoost {
        SalienceBoost {
            threat: None,
            opportunity: None,
            humor: None,
            novelty: None,
            goal_relevance: None,
            social: None,
            emotional: None,
            actionability: None,
            habituation: None,
        }
    }

    #[verifier::when_used_as_spec(spec_none)]
    pub fn none() -> (b: SalienceBoost)
        ensures
            b == Self::spec_none(),
    {
        SalienceBoost {
            threat: None,
            opportunity: None,
            humor: None,
            novelty: None,
            goal_relevance: None,
            social: None,
            emotional: None,
            actionability: None,
            habituation: None,
        }
    }
}

fn boost_axis(current: Scalar, boost: Option<Scalar>) -> (r: Scalar)
    ensures
        r == boosted(current, boost),
{
    match boost {
        Some(b) => if b.is_unit_value() {
            current.max(b)
        } else {
            current
        },
        None => current,
    }
}

/// Merges the boosts of a matched heuristic into `salience`: each axis for
/// which the boost holds a value of the unit interval becomes the larger of
/// the two; every other axis is left as it is.
pub fn apply_salience_boost(salience: &mut SalienceVector, boost: &SalienceBoost)
    ensures
        *final(salience) == merged(*old(salience), *boost),
{
    salience.threat = boost_axis(salience.threat, boost.threat);
    salience.opportunity = boost_axis(salience.opportunity, boost.opportunity);
    salience.humor = boost_axis(salience.humor, boost.humor);
    salience.novelty = boost_axis(salience.novelty, boost.novelty);
    salience.goal_relevance = boost_axis(salience.goal_relevance, boost.goal_relevance);
    salience.social = boost_axis(salience.social, boost.social);
    salience.emotional = boost_axis(salience.emotional, boost.emotional);
    salience.actionability = boost_axis(salience.actionability, boost.actionability);
    salience.habituation = boost_axis(salience.habituation, boost.habituation);
}

/// Merges the boosts of a heuristic's action into `salience`; an action
/// without boosts changes nothing.
pub fn apply_heuristic_salience(salience: &mut SalienceVector, heuristic: &CachedHeuristic)
    ensures
        *final(salience) == match heuristic.action.salience {
            Some(boost) => merged(*old(salience), boost),
            None => *old(salience),
        },
{
    match heuristic.action.salience {
        Some(boost) => {
            apply_salience_boost(salience, &boost);
        },
        None => {},
    }
}

/// Monotonic-max merge, for one axis: a boost never lowers the axis; where the
/// boost is a value of the unit interval, the result is exactly the larger of
/// the two and so at least each of them; an absent boost, or one outside the
/// unit interval, leaves the axis unchanged; and an axis in the unit interval
/// stays there.
pub proof fn lemma_boost_is_monotonic_max(current: Scalar, b: Scalar)
    ensures
        boosted(current, None) == current,
        !b.is_unit() ==> boosted(current, Some(b)) == current,
        b.is_unit() ==> boosted(current, Some(b)) == current.spec_max(b),
        b.is_unit() ==> boosted(current, Some(b)).spec_at_least(b),
        b.is_unit() ==> boosted(current, Some(b)) == current || boosted(current, Some(b)) == b,
        !current.is_nan() ==> boosted(current, Some(b)).spec_at_least(current),
        current.is_unit() ==> boosted(current, Some(b)).is_unit(),
{
}

/// Monotonic-max merge, for the whole vector: a valid vector stays valid and no
/// axis decreases.
pub proof fn lemma_merge_is_monotonic(v: SalienceVector, b: SalienceBoost)
    requires
        v.is_valid(),
    ensures
        merged(v, b).is_valid(),
        merged(v, b).threat.spec_at_least(v.threat),
        merged(v, b).opportunity.spec_at_least(v.opportunity),
        merged(v, b).humor.spec_at_least(v.humor),
        merged(v, b).novelty.spec_at_least(v.novelty),
        merged(v, b).goal_relevance.spec_at_least(v.goal_relevance),
        merged(v, b).social.spec_at_least(v.social),
        merged(v, b).emotional.spec_at_least(v.emotional),
        merged(v, b).actionability.spec_at_least(v.actionability),
        merged(v, b).habituation.spec_at_least(v.habituation),
        merged(v, SalienceBoost::spec_none()) == v,
{
}

} // verus!
