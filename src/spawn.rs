use vstd::prelude::*;
use vstd::string::StringExecFns;
use vstd::string::StrSliceExecFns;
use crate::registry::{Entity, Position};

verus! {

/// The character of a decimal digit.
pub open spec fn digit_char(d: nat) -> char {
    seq!['0', '1', '2', '3', '4', '5', '6', '7', '8', '9'][d as int]
}

/// `n` written in decimal, without sign or leading zeros.
pub open spec fn decimal(n: nat) -> Seq<char>
    decreases n,
{
    if n < 10 {
        seq![digit_char(n)]
    } else {
        decimal(n / 10).push(digit_char(n % 10))
    }
}

/// The prefix of every spawned entity's label.
pub open spec fn spawn_prefix() -> Seq<char> {
    seq!['f', 'e', 'r', 'r', 'i', 's']
}

/// The label of the entity spawned with index `i`.
pub open spec fn spawn_label(i: nat) -> Seq<char> {
    spawn_prefix() + decimal(i)
}

/// Relies on the `Display` of `u64` (through `to_string`): the decimal digits
/// of the number, with no sign and no leading zeros.
#[verifier::external_body]
pub(crate) fn decimal_text(n: u64) -> (r: String)
    ensures
        r@ == decimal(n as nat),
{
    n.to_string()
}

/// The label of the entity spawned with index `i`.
pub fn spawn_label_text(i: u64) -> (r: String)
    ensures
        r@ == spawn_label(i as nat),
{
    let digits = decimal_text(i);
    let mut label = String::from_str("ferris");
    proof {
        reveal_strlit("ferris");
    }
    label.append(digits.as_str());
    assert(label@ =~= spawn_label(i as nat));
    label
}

proof fn lemma_decimal_len(n: nat)
    ensures
        decimal(n).len() >= 1,
        n >= 10 ==> decimal(n).len() >= 2,
    decreases n,
{
    if n >= 10 {
        lemma_decimal_len(n / 10);
    }
}

proof fn lemma_digit_char_injective(a: nat, b: nat)
    requires
        a < 10,
        b < 10,
        digit_char(a) == digit_char(b),
    ensures
        a == b,
{
    let ds = seq!['0', '1', '2', '3', '4', '5', '6', '7', '8', '9'];
    assert(ds[0] == '0' && ds[1] == '1' && ds[2] == '2' && ds[3] == '3' && ds[4] == '4');
    assert(ds[5] == '5' && ds[6] == '6' && ds[7] == '7' && ds[8] == '8' && ds[9] == '9');
}

/// Distinct numbers have distinct decimal forms.
pub proof fn lemma_decimal_injective(a: nat, b: nat)
    requires
        decimal(a) == decimal(b),
    ensures
        a == b,
    decreases a,
{
    lemma_decimal_len(a);
    lemma_decimal_len(b);
    if a < 10 && b < 10 {
        assert(decimal(a)[0] == digit_char(a));
        assert(decimal(b)[0] == digit_char(b));
        lemma_digit_char_injective(a, b);
    } else if a >= 10 && b >= 10 {
        let da = decimal(a);
        let db = decimal(b);
        assert(da.last() == digit_char(a % 10));
        assert(db.last() == digit_char(b % 10));
        lemma_digit_char_injective(a % 10, b % 10);
        assert(da.drop_last() =~= decimal(a / 10));
        assert(db.drop_last() =~= decimal(b / 10));
        lemma_decimal_injective(a / 10, b / 10);
    }
}

/// No two spawn indices give the same label.
pub proof fn lemma_spawn_labels_distinct(i: nat, j: nat)
    requires
        i != j,
    ensures
        spawn_label(i) != spawn_label(j),
{
    if spawn_label(i) == spawn_label(j) {
        let p = spawn_prefix().len() as int;
        assert(spawn_label(i).subrange(p, spawn_label(i).len() as int) =~= decimal(i));
        assert(spawn_label(j).subrange(p, spawn_label(j).len() as int) =~= decimal(j));
        lemma_decimal_injective(i, j);
    }
}


/// The width of the band in which entities spawn: x in [-550, 550) field
/// units, in thousandths.
pub const SPAWN_HALF_WIDTH: i64 = 550_000;

/// The height of the band in which entities spawn: y in [-325, 325) field
/// units, in thousandths.
pub const SPAWN_HALF_HEIGHT: i64 = 325_000;

/// The drawing scale of a spawned entity, in hundredths.
pub const SPAWN_SCALE_PCT: u32 = 30;

/// Relies on rand's `thread_rng().gen_range(lo..hi)`: a value drawn from the
/// half-open range, which must not be empty.
#[verifier::external_body]
fn random_between(lo: i64, hi: i64) -> (r: i64)
    requires
        lo < hi,
    ensures
        lo <= r < hi,
{
    rand::Rng::gen_range(&mut rand::thread_rng(), lo..hi)
}

/// A point drawn at random in the spawn band.
pub fn random_spawn_position() -> (p: Position)
    ensures
        in_spawn_band(p),
{
    let x = random_between(-SPAWN_HALF_WIDTH, SPAWN_HALF_WIDTH);
    let y = random_between(-SPAWN_HALF_HEIGHT, SPAWN_HALF_HEIGHT);
    Position { x, y }
}

pub open spec fn in_spawn_band(p: Position) -> bool {
    &&& -SPAWN_HALF_WIDTH <= p.x < SPAWN_HALF_WIDTH
    &&& -SPAWN_HALF_HEIGHT <= p.y < SPAWN_HALF_HEIGHT
}

/// The entity that a spawn places at `p`.
pub open spec fn spawned_entity_spec(p: Position) -> Entity {
    Entity { position: p, scale_pct: SPAWN_SCALE_PCT, collision: true }
}

pub fn spawned_entity(p: Position) -> (e: Entity)
    ensures
        e == spawned_entity_spec(p),
{
    Entity { position: p, scale_pct: SPAWN_SCALE_PCT, collision: true }
}

/// A repeating timer that fires at most once per tick, and the counter from
/// which spawned labels are made.
#[derive(Clone, Copy, Debug, PartialEq, Eq, Structural)]
pub struct SpawnScheduler {
    next_index: u64,
    period_ms: u64,
    elapsed_ms: u64,
}

impl SpawnScheduler {
    pub closed spec fn next_index_spec(self) -> nat {
        self.next_index as nat
    }

    pub closed spec fn period_spec(self) -> nat {
        self.period_ms as nat
    }

    pub closed spec fn elapsed_spec(self) -> nat {
        self.elapsed_ms as nat
    }

    /// The period is positive and the time gathered stays below it.
    pub open spec fn wf(self) -> bool {
        0 < self.period_spec() && self.elapsed_spec() < self.period_spec()
    }

    /// Whether advancing by `delta` fires the timer.
    pub open spec fn fires(self, delta: nat) -> bool {
        self.elapsed_spec() + delta >= self.period_spec()
    }

    /// A scheduler that first fires after `period_ms`, and whose first label
    /// has index 0.
    pub fn new(period_ms: u64) -> (r: SpawnScheduler)
        requires
            period_ms > 0,
        ensures
            r.wf(),
            r.next_index_spec() == 0,
            r.period_spec() == period_ms,
            r.elapsed_spec() == 0,
    {
        SpawnScheduler { next_index: 0, period_ms, elapsed_ms: 0 }
    }

    pub fn next_index(&self) -> (r: u64)
        ensures
            r == self.next_index_spec(),
    {
        self.next_index
    }

    pub fn elapsed_ms(&self) -> (r: u64)
        ensures
            r == self.elapsed_spec(),
    {
        self.elapsed_ms
    }

    /// Adds `delta_ms` to the time gathered. When a full period has gathered,
    /// the timer fires once and starts again from zero: the time beyond the
    /// period is dropped. Returns whether it fired.
    pub fn advance(&mut self, delta_ms: u64) -> (fired: bool)
        requires
            old(self).wf(),
        ensures
            final(self).wf(),
            fired == old(self).fires(delta_ms as nat),
            final(self).elapsed_spec() == if fired {
                0
            } else {
                old(self).elapsed_spec() + delta_ms
            },
            final(self).period_spec() == old(self).period_spec(),
            final(self).next_index_spec() == old(self).next_index_spec(),
    {
        if delta_ms >= self.period_ms - self.elapsed_ms {
            self.elapsed_ms = 0;
            true
        } else {
            self.elapsed_ms = self.elapsed_ms + delta_ms;
            false
        }
    }

    /// Hands out the next label and moves the counter past it.
    pub fn take_label(&mut self) -> (label: String)
        requires
            old(self).next_index_spec() < u64::MAX,
        ensures
            label@ == spawn_label(old(self).next_index_spec()),
            final(self).next_index_spec() == old(self).next_index_spec() + 1,
            final(self).period_spec() == old(self).period_spec(),
            final(self).elapsed_spec() == old(self).elapsed_spec(),
    {
        let label = spawn_label_text(self.next_index);
        self.next_index = self.next_index + 1;
        label
    }
}

/// A label handed out now differs from every label handed out before.
pub proof fn lemma_new_label_is_fresh(next_index: nat)
    ensures
        forall|k: nat| k < next_index ==> spawn_label(k) != #[trigger] spawn_label(next_index),
{
    assert forall|k: nat| k < next_index implies spawn_label(k) != spawn_label(next_index) by {
        lemma_spawn_labels_distinct(k, next_index);
    }
}

/// Whether `l` begins with the spawn prefix: such labels are kept for
/// spawned entities.
pub open spec fn reserved_label(l: Seq<char>) -> bool {
    l.len() >= spawn_prefix().len() && l.subrange(0, spawn_prefix().len() as int) == spawn_prefix()
}

/// Every spawn label begins with the spawn prefix.
pub proof fn lemma_spawn_label_reserved(i: nat)
    ensures
        reserved_label(spawn_label(i)),
{
    assert(spawn_label(i).subrange(0, 6) =~= spawn_prefix());
}

/// Whether `s` begins with the spawn prefix.
pub fn is_reserved_label(s: &String) -> (r: bool)
    ensures
        r == reserved_label(s@),
{
    let t = s.as_str();
    let n = t.unicode_len();
    if n < 6 {
        return false;
    }
    let prefix = String::from_str("ferris");
    proof {
        reveal_strlit("ferris");
    }
    let p = prefix.as_str();
    assert(p@ =~= spawn_prefix());
    let mut i: usize = 0;
    while i < 6
        invariant
            0 <= i <= 6,
            n == t@.len(),
            n >= 6,
            p@ == spawn_prefix(),
            t@ == s@,
            forall|j: int| 0 <= j < i ==> t@[j] == spawn_prefix()[j],
        decreases 6 - i,
    {
        if t.get_char(i) != p.get_char(i) {
            assert(t@.subrange(0, 6)[i as int] != spawn_prefix()[i as int]);
            return false;
        }
        i = i + 1;
    }
    assert(t@.subrange(0, 6) =~= spawn_prefix());
    true
}

} // verus!
