use vstd::prelude::*;

use crate::key::{key_mods_of, VirtualKey};

verus! {

/// A set of generic modifiers, one bit each.
///
/// Left and right keys of a modifier set the same bit.
#[derive(Clone, Copy, Debug, PartialEq, Eq, Hash, Structural)]
pub struct KeyMods {
    bits: u32,
}

pub const CTRL_BIT: u32 = 0x1;

pub const CMD_BIT: u32 = 0x2;

pub const SHIFT_BIT: u32 = 0x4;

pub const ALT_BIT: u32 = 0x8;

/// All bits that stand for a modifier.
pub const ALL_BITS: u32 = 0xF;

impl KeyMods {
    /// `Ctrl`, and its left and right keys.
    pub fn ctrl() -> (r: KeyMods)
        ensures
            r@ == CTRL_BIT,
    {
        proof {
            KeyMods::lemma_wf_closed(0, 0);
        }
        KeyMods { bits: CTRL_BIT }
    }

    /// `Cmd`.
    pub fn cmd() -> (r: KeyMods)
        ensures
            r@ == CMD_BIT,
    {
        proof {
            KeyMods::lemma_wf_closed(0, 0);
        }
        KeyMods { bits: CMD_BIT }
    }

    /// `Shift`, and its left and right keys.
    pub fn shift() -> (r: KeyMods)
        ensures
            r@ == SHIFT_BIT,
    {
        proof {
            KeyMods::lemma_wf_closed(0, 0);
        }
        KeyMods { bits: SHIFT_BIT }
    }

    /// `Alt`, and its left and right keys.
    pub fn alt() -> (r: KeyMods)
        ensures
            r@ == ALT_BIT,
    {
        proof {
            KeyMods::lemma_wf_closed(0, 0);
        }
        KeyMods { bits: ALT_BIT }
    }

    /// The modifiers as bits.
    pub closed spec fn view(self) -> u32 {
        self.bits
    }

    /// The set with these bits.
    pub closed spec fn spec_from_bits(bits: u32) -> KeyMods {
        KeyMods { bits }
    }

    /// A set is its bits.
    pub proof fn lemma_view_eq(a: KeyMods, b: KeyMods, bits: u32)
        ensures
            (a@ == b@) == (a == b),
            KeyMods::spec_from_bits(bits)@ == bits,
    {
    }

    /// Every bit stands for a modifier.
    #[verifier::type_invariant]
    pub open spec fn wf(self) -> bool {
        self@ & !ALL_BITS == 0
    }

    proof fn lemma_wf_closed(a: u32, b: u32)
        ensures
            a & !ALL_BITS == 0 && b & !ALL_BITS == 0 ==> (a | b) & !ALL_BITS == 0,
            a & !ALL_BITS == 0 ==> (a & b) & !ALL_BITS == 0,
            a & !ALL_BITS == 0 ==> (a & !b) & !ALL_BITS == 0,
            0u32 & !ALL_BITS == 0,
            CTRL_BIT & !ALL_BITS == 0,
            CMD_BIT & !ALL_BITS == 0,
            SHIFT_BIT & !ALL_BITS == 0,
            ALT_BIT & !ALL_BITS == 0,
            ALL_BITS & !ALL_BITS == 0,
    {
        assert(a & !0xFu32 == 0 && b & !0xFu32 == 0 ==> (a | b) & !0xFu32 == 0) by (bit_vector);
        assert(a & !0xFu32 == 0 ==> (a & b) & !0xFu32 == 0) by (bit_vector);
        assert(a & !0xFu32 == 0 ==> (a & !b) & !0xFu32 == 0) by (bit_vector);
        assert(0u32 & !0xFu32 == 0 && 1u32 & !0xFu32 == 0 && 2u32 & !0xFu32 == 0 && 4u32 & !0xFu32
            == 0 && 8u32 & !0xFu32 == 0 && 0xFu32 & !0xFu32 == 0) by (bit_vector);
    }

    /// The empty set.
    pub fn empty() -> (r: KeyMods)
        ensures
            r@ == 0,
    {
        proof {
            KeyMods::lemma_wf_closed(0, 0);
        }
        KeyMods { bits: 0 }
    }

    /// All four modifiers.
    pub fn all() -> (r: KeyMods)
        ensures
            r@ == ALL_BITS,
    {
        proof {
            KeyMods::lemma_wf_closed(0, 0);
        }
        KeyMods { bits: ALL_BITS }
    }

    pub fn bits(&self) -> (r: u32)
        ensures
            r == self@,
    {
        self.bits
    }

    /// The set with these bits, or `None` where a bit stands for no modifier.
    pub fn from_bits(bits: u32) -> (r: Option<KeyMods>)
        ensures
            r is Some == (bits & !ALL_BITS == 0),
            r matches Some(m) ==> m@ == bits,
    {
        if bits & !ALL_BITS == 0 {
            Some(KeyMods { bits })
        } else {
            None
        }
    }

    pub fn is_empty(&self) -> (r: bool)
        ensures
            r == (self@ == 0),
    {
        self.bits == 0
    }

    /// Whether every modifier of `other` is in `self`.
    pub fn contains(&self, other: KeyMods) -> (r: bool)
        ensures
            r == (self@ & other@ == other@),
    {
        self.bits & other.bits == other.bits
    }

    pub fn union(&self, other: KeyMods) -> (r: KeyMods)
        ensures
            r@ == self@ | other@,
    {
        proof {
            use_type_invariant(self);
            use_type_invariant(other);
            KeyMods::lemma_wf_closed(self.bits, other.bits);
        }
        KeyMods { bits: self.bits | other.bits }
    }

    pub fn intersection(&self, other: KeyMods) -> (r: KeyMods)
        ensures
            r@ == self@ & other@,
    {
        proof {
            use_type_invariant(self);
            KeyMods::lemma_wf_closed(self.bits, other.bits);
        }
        KeyMods { bits: self.bits & other.bits }
    }

    /// The modifiers of `self` that are not in `other`.
    pub fn difference(&self, other: KeyMods) -> (r: KeyMods)
        ensures
            r@ == self@ & !other@,
    {
        proof {
            use_type_invariant(self);
            KeyMods::lemma_wf_closed(self.bits, other.bits);
        }
        KeyMods { bits: self.bits & !other.bits }
    }

    pub fn insert(&mut self, other: KeyMods)
        ensures
            final(self)@ == old(self)@ | other@,
    {
        *self = self.union(other);
    }

    pub fn remove(&mut self, other: KeyMods)
        ensures
            final(self)@ == old(self)@ & !other@,
    {
        *self = self.difference(other);
    }

    /// Inserts `other` where `value` holds, else removes it.
    pub fn set(&mut self, other: KeyMods, value: bool)
        ensures
            final(self)@ == (if value {
                old(self)@ | other@
            } else {
                old(self)@ & !other@
            }),
    {
        if value {
            self.insert(other);
        } else {
            self.remove(other);
        }
    }
}

/// Why a list of key names does not describe a set of modifiers.
#[derive(Clone, Debug, PartialEq, Eq)]
pub enum KeyModsError {
    /// The first key of the list that is not a modifier.
    NotModifier(VirtualKey),
    /// The keys that repeat a modifier named earlier in the list, each once,
    /// in the order in which they first repeat one.
    Duplicated(Vec<VirtualKey>),
}

/// The generic modifier keys of a set, in the order `Ctrl`, `Cmd`, `Shift`,
/// `Alt`.
pub open spec fn keys_of(bits: u32) -> Seq<VirtualKey> {
    (if bits & CTRL_BIT != 0 { seq![VirtualKey::Ctrl] } else { seq![] })
        + (if bits & CMD_BIT != 0 { seq![VirtualKey::Cmd] } else { seq![] })
        + (if bits & SHIFT_BIT != 0 { seq![VirtualKey::Shift] } else { seq![] })
        + (if bits & ALT_BIT != 0 { seq![VirtualKey::Alt] } else { seq![] })
}

pub open spec fn is_modifier(k: VirtualKey) -> bool {
    key_mods_of(k) is Some
}

/// The modifier bit of a key, 0 for a key that is not a modifier.
pub open spec fn bit_of(k: VirtualKey) -> u32 {
    match key_mods_of(k) {
        Some(b) => b,
        None => 0,
    }
}

pub open spec fn all_modifiers(keys: Seq<VirtualKey>) -> bool {
    forall|i: int| 0 <= i < keys.len() ==> is_modifier(#[trigger] keys[i])
}

/// The set of modifiers that a list of modifier keys names.
pub open spec fn bits_of_keys(keys: Seq<VirtualKey>) -> u32
    decreases keys.len(),
{
    if keys.len() == 0 {
        0
    } else {
        bits_of_keys(keys.drop_last()) | bit_of(keys.last())
    }
}

/// The key at `j` names a modifier that a key before it named too.
pub open spec fn repeats_earlier(keys: Seq<VirtualKey>, j: int) -> bool {
    exists|i: int| 0 <= i < j && #[trigger] bit_of(keys[i]) == bit_of(keys[j])
}

pub open spec fn has_duplicate(keys: Seq<VirtualKey>) -> bool {
    exists|j: int| 0 <= j < keys.len() && #[trigger] repeats_earlier(keys, j)
}

/// The keys that repeat an earlier modifier, each once, in the order in
/// which they first repeat one.
pub open spec fn duplicated_keys(keys: Seq<VirtualKey>) -> Seq<VirtualKey>
    decreases keys.len(),
{
    if keys.len() == 0 {
        seq![]
    } else {
        let d = duplicated_keys(keys.drop_last());
        if repeats_earlier(keys, keys.len() - 1) && !d.contains(keys.last()) {
            d.push(keys.last())
        } else {
            d
        }
    }
}

proof fn lemma_single_bits(x: u32, b: u32, c: u32)
    requires
        b == 1 || b == 2 || b == 4 || b == 8,
        c == 1 || c == 2 || c == 4 || c == 8,
    ensures
        ((x | c) & b == b) == ((x & b == b) || c == b),
        0u32 & b != b,
        (x & b == b) ==> (x | b) == x,
{
    assert((x & b == b) ==> (x | b) == x) by (bit_vector);
    assert(((x | c) & b == b) == ((x & b == b) || c == b)) by (bit_vector)
        requires
            b == 1 || b == 2 || b == 4 || b == 8,
            c == 1 || c == 2 || c == 4 || c == 8,
    ;
    assert(0u32 & b != b) by (bit_vector)
        requires
            b == 1 || b == 2 || b == 4 || b == 8,
    ;
}

proof fn lemma_bit_of_single(k: VirtualKey)
    requires
        is_modifier(k),
    ensures
        bit_of(k) == 1 || bit_of(k) == 2 || bit_of(k) == 4 || bit_of(k) == 8,
{
}

/// A modifier bit is in the set of a list of modifier keys exactly when one
/// of the keys has it.
proof fn lemma_bits_of_keys_has(keys: Seq<VirtualKey>, b: u32)
    requires
        all_modifiers(keys),
        b == 1 || b == 2 || b == 4 || b == 8,
    ensures
        (bits_of_keys(keys) & b == b) == (exists|i: int|
            0 <= i < keys.len() && #[trigger] bit_of(keys[i]) == b),
    decreases keys.len(),
{
    if keys.len() == 0 {
        lemma_single_bits(0, b, 1);
    } else {
        let p = keys.drop_last();
        assert(all_modifiers(p)) by {
            assert forall|i: int| 0 <= i < p.len() implies is_modifier(#[trigger] p[i]) by {
                assert(p[i] == keys[i]);
            }
        }
        lemma_bits_of_keys_has(p, b);
        lemma_bit_of_single(keys[keys.len() - 1]);
        lemma_single_bits(bits_of_keys(p), b, bit_of(keys.last()));
        if exists|i: int| 0 <= i < keys.len() && #[trigger] bit_of(keys[i]) == b {
            let i = choose|i: int| 0 <= i < keys.len() && #[trigger] bit_of(keys[i]) == b;
            if i < keys.len() - 1 {
                assert(p[i] == keys[i]);
            }
        }
        if exists|i: int| 0 <= i < p.len() && #[trigger] bit_of(p[i]) == b {
            let i = choose|i: int| 0 <= i < p.len() && #[trigger] bit_of(p[i]) == b;
            assert(p[i] == keys[i]);
        }
    }
}

/// A list names some modifier twice exactly when it has duplicated keys.
proof fn lemma_duplicated_keys_nonempty(keys: Seq<VirtualKey>)
    ensures
        (duplicated_keys(keys).len() > 0) == has_duplicate(keys),
    decreases keys.len(),
{
    if keys.len() > 0 {
        let p = keys.drop_last();
        let n = keys.len() - 1;
        lemma_duplicated_keys_nonempty(p);
        assert forall|j: int| 0 <= j < n implies repeats_earlier(keys, j) == repeats_earlier(
            p,
            j,
        ) by {
            if repeats_earlier(keys, j) {
                let i = choose|i: int| 0 <= i < j && #[trigger] bit_of(keys[i]) == bit_of(keys[j]);
                assert(bit_of(p[i]) == bit_of(p[j]));
            }
            if repeats_earlier(p, j) {
                let i = choose|i: int| 0 <= i < j && #[trigger] bit_of(p[i]) == bit_of(p[j]);
                assert(bit_of(keys[i]) == bit_of(keys[j]));
            }
        }
        if has_duplicate(keys) {
            let j = choose|j: int| 0 <= j < keys.len() && #[trigger] repeats_earlier(keys, j);
            if j < n {
                assert(repeats_earlier(p, j));
            }
        }
        if has_duplicate(p) {
            let j = choose|j: int| 0 <= j < p.len() && #[trigger] repeats_earlier(p, j);
            assert(repeats_earlier(keys, j));
        }
    }
}

fn contains_key(v: &Vec<VirtualKey>, k: VirtualKey) -> (r: bool)
    ensures
        r == v@.contains(k),
{
    let mut i: usize = 0;
    while i < v.len()
        invariant
            0 <= i <= v.len(),
            forall|j: int| 0 <= j < i ==> v@[j] != k,
        decreases v.len() - i,
    {
        if v[i] == k {
            return true;
        }
        i = i + 1;
    }
    false
}

impl KeyMods {
    /// The modifier keys of this set, in the order `Ctrl`, `Cmd`, `Shift`,
    /// `Alt`: the form in which a set is written out.
    pub fn to_keys(&self) -> (r: Vec<VirtualKey>)
        ensures
            r@ == keys_of(self@),
    {
        let mut keys: Vec<VirtualKey> = Vec::new();
        if self.bits & CTRL_BIT != 0 {
            keys.push(VirtualKey::Ctrl);
        }
        if self.bits & CMD_BIT != 0 {
            keys.push(VirtualKey::Cmd);
        }
        if self.bits & SHIFT_BIT != 0 {
            keys.push(VirtualKey::Shift);
        }
        if self.bits & ALT_BIT != 0 {
            keys.push(VirtualKey::Alt);
        }
        assert(keys@ =~= keys_of(self@));
        keys
    }

    /// Reads a set back from a list of modifier keys.
    ///
    /// Fails on the first key that is not a modifier; otherwise fails when a
    /// modifier is named twice, even where the set would be clear.
    pub fn from_keys(keys: &[VirtualKey]) -> (r: Result<KeyMods, KeyModsError>)
        ensures
            (r matches Err(KeyModsError::NotModifier(_))) == !all_modifiers(keys@),
            r matches Err(KeyModsError::NotModifier(k)) ==> exists|j: int|
                0 <= j < keys@.len() && keys@[j] == k && !is_modifier(k) && all_modifiers(
                    keys@.take(j),
                ),
            all_modifiers(keys@) ==> (r matches Err(KeyModsError::Duplicated(_)))
                == has_duplicate(keys@),
            r matches Err(KeyModsError::Duplicated(ds)) ==> ds@ == duplicated_keys(keys@),
            r matches Ok(m) ==> m@ == bits_of_keys(keys@),
    {
        let mut mods = KeyMods::empty();
        let mut duplicated: Vec<VirtualKey> = Vec::new();
        let mut i: usize = 0;
        while i < keys.len()
            invariant
                0 <= i <= keys@.len(),
                all_modifiers(keys@.take(i as int)),
                mods@ == bits_of_keys(keys@.take(i as int)),
                duplicated@ == duplicated_keys(keys@.take(i as int)),
            decreases keys.len() - i,
        {
            let key = keys[i];
            let ghost prefix = keys@.take(i as int);
            let ghost next = keys@.take(i + 1);
            assert(next.drop_last() =~= prefix);
            match key.as_key_mods() {
                None => {
                    assert(!all_modifiers(keys@)) by {
                        assert(!is_modifier(keys@[i as int]));
                    }
                    return Err(KeyModsError::NotModifier(key));
                },
                Some(key_mod) => {
                    proof {
                        lemma_bit_of_single(key);
                        lemma_bits_of_keys_has(prefix, key_mod@);
                        lemma_single_bits(mods@, key_mod@, key_mod@);
                        assert(repeats_earlier(next, i as int) == (exists|j: int|
                            0 <= j < prefix.len() && #[trigger] bit_of(prefix[j]) == key_mod@))
                            by {
                            if repeats_earlier(next, i as int) {
                                let j = choose|j: int|
                                    0 <= j < i && #[trigger] bit_of(next[j]) == bit_of(next[i as int]);
                                assert(prefix[j] == next[j]);
                            }
                            if exists|j: int|
                                0 <= j < prefix.len() && #[trigger] bit_of(prefix[j]) == key_mod@ {
                                let j = choose|j: int|
                                    0 <= j < prefix.len() && #[trigger] bit_of(prefix[j]) == key_mod@;
                                assert(prefix[j] == next[j]);
                            }
                        }
                    }
                    assert(next.last() == key);
                    assert(bits_of_keys(next) == bits_of_keys(prefix) | bit_of(key));
                    if mods.contains(key_mod) {
                        if !contains_key(&duplicated, key) {
                            duplicated.push(key);
                        }
                    } else {
                        mods.insert(key_mod);
                    }
                    assert(all_modifiers(next)) by {
                        assert forall|j: int| 0 <= j < next.len() implies is_modifier(
                            #[trigger] next[j],
                        ) by {
                            if j < i {
                                assert(next[j] == prefix[j]);
                            }
                        }
                    }
                },
            }
            i = i + 1;
        }
        assert(keys@.take(keys.len() as int) =~= keys@);
        proof {
            lemma_duplicated_keys_nonempty(keys@);
        }
        if duplicated.len() == 0 {
            Ok(mods)
        } else {
            Err(KeyModsError::Duplicated(duplicated))
        }
    }
}

proof fn lemma_bits_of_keys_concat(a: Seq<VirtualKey>, b: Seq<VirtualKey>)
    ensures
        bits_of_keys(a + b) == bits_of_keys(a) | bits_of_keys(b),
    decreases b.len(),
{
    let x = bits_of_keys(a);
    if b.len() == 0 {
        assert(a + b =~= a);
        assert(x | 0 == x) by (bit_vector);
    } else {
        let b0 = b.drop_last();
        assert((a + b).drop_last() =~= a + b0);
        assert((a + b).last() == b.last());
        lemma_bits_of_keys_concat(a, b0);
        let y = bits_of_keys(b0);
        let z = bit_of(b.last());
        assert((x | y) | z == x | (y | z)) by (bit_vector);
    }
}

proof fn lemma_bits_of_keys_single(k: VirtualKey)
    ensures
        bits_of_keys(seq![k]) == bit_of(k),
{
    assert(seq![k].drop_last() =~= Seq::<VirtualKey>::empty());
    assert(seq![k].last() == k);
    assert(bits_of_keys(Seq::<VirtualKey>::empty()) == 0);
    let b = bit_of(k);
    assert(0 | b == b) by (bit_vector);
}

/// Writing a set of modifiers out as keys and reading the keys back gives the
/// same set: every key written is a modifier, none is named twice, and
/// together they name exactly the set.
pub proof fn lemma_keys_round_trip(m: KeyMods)
    requires
        m.wf(),
    ensures
        all_modifiers(keys_of(m@)),
        !has_duplicate(keys_of(m@)),
        bits_of_keys(keys_of(m@)) == m@,
{
    let x = m@;
    let a = if x & CTRL_BIT != 0 { seq![VirtualKey::Ctrl] } else { seq![] };
    let b = if x & CMD_BIT != 0 { seq![VirtualKey::Cmd] } else { seq![] };
    let c = if x & SHIFT_BIT != 0 { seq![VirtualKey::Shift] } else { seq![] };
    let d = if x & ALT_BIT != 0 { seq![VirtualKey::Alt] } else { seq![] };
    let keys = keys_of(x);
    assert(keys == a + b + c + d);
    lemma_bits_of_keys_concat(a + b + c, d);
    lemma_bits_of_keys_concat(a + b, c);
    lemma_bits_of_keys_concat(a, b);
    lemma_bits_of_keys_single(VirtualKey::Ctrl);
    lemma_bits_of_keys_single(VirtualKey::Cmd);
    lemma_bits_of_keys_single(VirtualKey::Shift);
    lemma_bits_of_keys_single(VirtualKey::Alt);
    assert(bits_of_keys(Seq::<VirtualKey>::empty()) == 0);
    assert(x == ((((if x & 1 != 0 { 1u32 } else { 0u32 }) | (if x & 2 != 0 { 2u32 } else { 0u32 }))
        | (if x & 4 != 0 { 4u32 } else { 0u32 })) | (if x & 8 != 0 { 8u32 } else { 0u32 })))
        by (bit_vector)
        requires
            x & !0xFu32 == 0,
    ;
    assert forall|i: int, j: int| 0 <= i < j < keys.len() implies bit_of(keys[i]) < bit_of(
        keys[j],
    ) by {
    }
    assert(!has_duplicate(keys)) by {
        if has_duplicate(keys) {
            let j = choose|j: int| 0 <= j < keys.len() && #[trigger] repeats_earlier(keys, j);
            let i = choose|i: int| 0 <= i < j && #[trigger] bit_of(keys[i]) == bit_of(keys[j]);
        }
    }
}

} // verus!
