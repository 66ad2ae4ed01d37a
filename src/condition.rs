use vstd::prelude::*;

verus! {

/// Value of a control factor, in the fixed-point unit chosen by the extractor.
pub type ControlFactor = i64;

/// Named control factors computed for one frame.
///
/// Inserting a name that is already present shadows the earlier value.
pub struct ControlFactorMap {
    entries: Vec<(String, i64)>,
}

/// The value bound to `id` in a list of entries: the last entry with that name.
pub open spec fn factor_lookup(entries: Seq<(String, i64)>, id: Seq<char>) -> Option<i64>
    decreases entries.len(),
{
    if entries.len() == 0 {
        None
    } else if entries.last().0@ == id {
        Some(entries.last().1)
    } else {
        factor_lookup(entries.drop_last(), id)
    }
}

impl ControlFactorMap {
    pub closed spec fn entries(&self) -> Seq<(String, i64)> {
        self.entries@
    }

    /// The value of the control factor named `id`, if present.
    pub open spec fn factor(&self, id: Seq<char>) -> Option<i64> {
        factor_lookup(self.entries(), id)
    }

    pub fn new() -> (r: ControlFactorMap)
        ensures
            forall|id: Seq<char>| #[trigger] r.factor(id) is None,
    {
        ControlFactorMap { entries: Vec::new() }
    }

    /// Binds `value` to `id`.
    pub fn insert(&mut self, id: String, value: i64)
        ensures
            final(self).factor(id@) == Some(value),
            forall|k: Seq<char>| k != id@ ==> #[trigger] final(self).factor(k) == old(self).factor(k),
    {
        let ghost key = id@;
        self.entries.push((id, value));
        assert(self.entries@.drop_last() =~= old(self).entries@);
    }

    /// The value bound to `id`, if any.
    pub fn get(&self, id: &String) -> (r: Option<i64>)
        ensures
            r == self.factor(id@),
    {
        let mut i: usize = self.entries.len();
        assert(self.entries@.take(i as int) =~= self.entries@);
        while i > 0
            invariant
                i <= self.entries@.len(),
                factor_lookup(self.entries@, id@) == factor_lookup(self.entries@.take(i as int), id@),
            decreases i,
        {
            let ghost prefix = self.entries@.take(i as int);
            assert(prefix.drop_last() =~= self.entries@.take(i - 1));
            if self.entries[i - 1].0 == *id {
                return Some(self.entries[i - 1].1);
            }
            i = i - 1;
        }
        assert(self.entries@.take(0) =~= Seq::<(String, i64)>::empty());
        None
    }
}

/// A predicate on a single control factor value.
#[derive(Clone, Copy, Debug, PartialEq, Eq, Structural)]
pub enum Condition {
    /// The value lies in the half-open range `[lo, hi)`.
    InRange { lo: i64, hi: i64 },
    /// The value lies outside the half-open range `[lo, hi)`.
    NotInRange { lo: i64, hi: i64 },
    /// The value is at least `value`.
    GreaterThanValue { value: i64 },
    /// The value is at most `value`.
    LessThanValue { value: i64 },
}

impl Condition {
    pub open spec fn holds_for(self, v: i64) -> bool {
        match self {
            Condition::InRange { lo, hi } => lo <= v && v < hi,
            Condition::NotInRange { lo, hi } => !(lo <= v && v < hi),
            Condition::GreaterThanValue { value } => v >= value,
            Condition::LessThanValue { value } => v <= value,
        }
    }

    /// Whether `v` satisfies this condition.
    pub fn check(&self, v: i64) -> (r: bool)
        ensures
            r == self.holds_for(v),
    {
        match self {
            Condition::InRange { lo, hi } => *lo <= v && v < *hi,
            Condition::NotInRange { lo, hi } => !(*lo <= v && v < *hi),
            Condition::GreaterThanValue { value } => v >= *value,
            Condition::LessThanValue { value } => v <= *value,
        }
    }
}

/// A condition on the control factor with the given name.
#[derive(Clone, Debug)]
pub struct MappedCondition {
    pub control_factor: String,
    pub condition: Condition,
}

impl MappedCondition {
    /// Holds when the factor is present and its value satisfies the condition;
    /// an absent factor never satisfies it.
    pub open spec fn holds(self, cfs: ControlFactorMap) -> bool {
        match cfs.factor(self.control_factor@) {
            Some(v) => self.condition.holds_for(v),
            None => false,
        }
    }

    /// An equal copy of this condition.
    pub fn duplicate(&self) -> (r: MappedCondition)
        ensures
            r == *self,
    {
        MappedCondition { control_factor: self.control_factor.clone(), condition: self.condition }
    }

    pub fn is_valid(&self, cfs: &ControlFactorMap) -> (r: bool)
        ensures
            r == self.holds(*cfs),
    {
        match cfs.get(&self.control_factor) {
            Some(v) => self.condition.check(v),
            None => false,
        }
    }
}

} // verus!
