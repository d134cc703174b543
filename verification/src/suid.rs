//! Sensor unique identifiers (SUIDs): 128-bit values derived
//! deterministically from a seed string, with process-lifetime collision
//! checking kept in an explicit generator state.
use vstd::prelude::*;

verus! {

/// A 128-bit sensor identifier, split into its high and low halves.
#[derive(Clone, Copy, PartialEq, Eq, Structural, Debug, Hash)]
pub struct Suid {
    pub hi: u64,
    pub lo: u64,
}

/// The 128-bit content hash that the identifier scheme assigns to a seed
/// string: a name-based (namespace + SHA-1) digest in the DNS namespace.
/// It depends on the seed's characters alone.
pub uninterp spec fn suid_hash(seed: Seq<char>) -> (u64, u64);

/// The identifier a seed hashes to.
pub open spec fn spec_suid_of(seed: Seq<char>) -> Suid {
    Suid { hi: suid_hash(seed).0, lo: suid_hash(seed).1 }
}

/// Relies on `uuid::Uuid::new_v5` in the DNS namespace: a name-based digest
/// that is a pure function of the input bytes, hence of the input characters;
/// `as_u64_pair` returns its high and low 64-bit halves.
#[verifier::external_body]
fn hash_seed(input: &str) -> (r: (u64, u64))
    ensures
        r == suid_hash(input@),
{
    uuid::Uuid::new_v5(&uuid::Uuid::NAMESPACE_DNS, input.as_bytes()).as_u64_pair()
}

/// Why an identifier generation request failed.
#[derive(Clone, Copy, PartialEq, Eq, Structural, Debug)]
pub enum SuidError {
    /// The seed hashes to an identifier that this generator already produced.
    Duplicate(Suid),
}

/// What `generate` returns for a given seed when the set of identifiers
/// produced so far is `generated`.
pub open spec fn spec_generate(generated: Seq<Suid>, seed: Seq<char>) -> Result<Suid, SuidError> {
    if generated.contains(spec_suid_of(seed)) {
        Err(SuidError::Duplicate(spec_suid_of(seed)))
    } else {
        Ok(spec_suid_of(seed))
    }
}

/// The identifier generator's collision-checking state: every identifier it
/// has successfully produced so far.
pub struct SuidGenerator {
    generated: Vec<Suid>,
}

impl View for SuidGenerator {
    type V = Seq<Suid>;

    closed spec fn view(&self) -> Seq<Suid> {
        self.generated@
    }
}

impl SuidGenerator {
    /// A fresh generator that has produced no identifiers yet.
    pub fn new() -> (r: SuidGenerator)
        ensures
            r@ == Seq::<Suid>::empty(),
    {
        SuidGenerator { generated: Vec::new() }
    }

    /// Derives the seed's identifier; fails (without changing the state) if
    /// this generator already produced that identifier, records it otherwise.
    pub fn generate(&mut self, input: &str) -> (r: Result<Suid, SuidError>)
        ensures
            r == spec_generate(old(self)@, input@),
            r is Ok ==> final(self)@ == old(self)@.push(spec_suid_of(input@)),
            r is Err ==> final(self)@ == old(self)@,
    {
        let (hi, lo) = hash_seed(input);
        let suid = Suid { hi, lo };
        if contains_suid(&self.generated, suid) {
            Err(SuidError::Duplicate(suid))
        } else {
            self.generated.push(suid);
            Ok(suid)
        }
    }

    /// How many identifiers this generator has successfully produced.
    pub fn get_generated_count(&self) -> (r: usize)
        ensures
            r == self@.len(),
    {
        self.generated.len()
    }
}

/// Derives the seed's identifier without the collision check and without
/// touching any generator state.
pub fn generate_fixed(input: &str) -> (r: Suid)
    ensures
        r == spec_suid_of(input@),
{
    let (hi, lo) = hash_seed(input);
    Suid { hi, lo }
}

/// The lower-case hexadecimal digit character for `d`.
pub open spec fn spec_hex_char(d: nat) -> char {
    if d == 0 {
        '0'
    } else if d == 1 {
        '1'
    } else if d == 2 {
        '2'
    } else if d == 3 {
        '3'
    } else if d == 4 {
        '4'
    } else if d == 5 {
        '5'
    } else if d == 6 {
        '6'
    } else if d == 7 {
        '7'
    } else if d == 8 {
        '8'
    } else if d == 9 {
        '9'
    } else if d == 10 {
        'a'
    } else if d == 11 {
        'b'
    } else if d == 12 {
        'c'
    } else if d == 13 {
        'd'
    } else if d == 14 {
        'e'
    } else {
        'f'
    }
}

/// The `n` low-order hexadecimal digits of `v`, most significant first.
pub open spec fn spec_hex_chars(v: nat, n: nat) -> Seq<char>
    decreases n,
{
    if n == 0 {
        Seq::empty()
    } else {
        spec_hex_chars(v / 16, (n - 1) as nat).push(spec_hex_char(v % 16))
    }
}

/// The identifier's canonical hyphenated form: thirty-two lower-case
/// hexadecimal digits in five dash-separated groups of 8, 4, 4, 4 and 12.
pub open spec fn spec_uuid_chars(s: Suid) -> Seq<char> {
    spec_hex_chars((s.hi >> 32) as nat, 8) + seq!['-'] + spec_hex_chars(
        ((s.hi >> 16) & 0xffff) as nat,
        4,
    ) + seq!['-'] + spec_hex_chars((s.hi & 0xffff) as nat, 4) + seq!['-'] + spec_hex_chars(
        (s.lo >> 48) as nat,
        4,
    ) + seq!['-'] + spec_hex_chars((s.lo & 0xffff_ffff_ffff) as nat, 12)
}

fn hex_char_str(d: u64) -> (r: &'static str)
    requires
        d < 16,
    ensures
        r@ == seq![spec_hex_char(d as nat)],
{
    proof {
        reveal_strlit("0");
        reveal_strlit("1");
        reveal_strlit("2");
        reveal_strlit("3");
        reveal_strlit("4");
        reveal_strlit("5");
        reveal_strlit("6");
        reveal_strlit("7");
        reveal_strlit("8");
        reveal_strlit("9");
        reveal_strlit("a");
        reveal_strlit("b");
        reveal_strlit("c");
        reveal_strlit("d");
        reveal_strlit("e");
        reveal_strlit("f");
    }
    let r = if d == 0 {
        "0"
    } else if d == 1 {
        "1"
    } else if d == 2 {
        "2"
    } else if d == 3 {
        "3"
    } else if d == 4 {
        "4"
    } else if d == 5 {
        "5"
    } else if d == 6 {
        "6"
    } else if d == 7 {
        "7"
    } else if d == 8 {
        "8"
    } else if d == 9 {
        "9"
    } else if d == 10 {
        "a"
    } else if d == 11 {
        "b"
    } else if d == 12 {
        "c"
    } else if d == 13 {
        "d"
    } else if d == 14 {
        "e"
    } else {
        "f"
    };
    proof {
        assert(r@ =~= seq![spec_hex_char(d as nat)]);
    }
    r
}

fn hex_string(v: u64, n: u64) -> (r: String)
    ensures
        r@ == spec_hex_chars(v as nat, n as nat),
    decreases n,
{
    if n == 0 {
        String::new()
    } else {
        let mut s = hex_string(v / 16, n - 1);
        s.append(hex_char_str(v % 16));
        proof {
            assert(s@ =~= spec_hex_chars(v as nat, n as nat));
        }
        s
    }
}

impl Suid {
    /// The canonical hyphenated hexadecimal form of this identifier.
    pub fn to_string(&self) -> (r: String)
        ensures
            r@ == spec_uuid_chars(*self),
    {
        proof {
            reveal_strlit("-");
        }
        let mut s = hex_string(self.hi >> 32, 8);
        s.append("-");
        let g2 = hex_string((self.hi >> 16) & 0xffff, 4);
        s.append(g2.as_str());
        s.append("-");
        let g3 = hex_string(self.hi & 0xffff, 4);
        s.append(g3.as_str());
        s.append("-");
        let g4 = hex_string(self.lo >> 48, 4);
        s.append(g4.as_str());
        s.append("-");
        let g5 = hex_string(self.lo & 0xffff_ffff_ffff, 12);
        s.append(g5.as_str());
        proof {
            assert("-"@ =~= seq!['-']);
            assert(s@ =~= spec_uuid_chars(*self));
        }
        s
    }
}

/// The identifier's high and low 64-bit halves.
pub fn get_u64_pair(suid: &Suid) -> (r: (u64, u64))
    ensures
        r == (suid.hi, suid.lo),
{
    (suid.hi, suid.lo)
}

fn contains_suid(v: &Vec<Suid>, s: Suid) -> (r: bool)
    ensures
        r == v@.contains(s),
{
    let mut i: usize = 0;
    while i < v.len()
        invariant
            0 <= i <= v@.len(),
            forall|j: int| 0 <= j < i ==> v@[j] != s,
        decreases v@.len() - i,
    {
        if v[i] == s {
            return true;
        }
        i += 1;
    }
    false
}

/// Determinism: on any generator state, a successful `generate` returns
/// exactly the identifier that `generate_fixed` returns for the same seed.
pub proof fn lemma_generate_deterministic(generated: Seq<Suid>, seed: Seq<char>)
    ensures
        spec_generate(generated, seed) matches Ok(v) ==> v == spec_suid_of(seed),
{
}

/// Collision detection: a fresh generator accepts any seed; once a seed's
/// identifier has been produced, the same seed is rejected as a duplicate,
/// which is distinct from "never requested"; and two successful generations
/// never return the same identifier.
pub proof fn lemma_collision_detection(g0: Seq<Suid>, s1: Seq<char>, s2: Seq<char>)
    ensures
        spec_generate(Seq::<Suid>::empty(), s1) is Ok,
        spec_generate(g0, s1) matches Ok(v) ==> spec_generate(g0.push(v), s1)
            == Err::<Suid, SuidError>(SuidError::Duplicate(v)),
        (spec_generate(g0, s1) matches Ok(v1) && spec_generate(g0.push(v1), s2) matches Ok(v2))
            ==> spec_suid_of(s1) != spec_suid_of(s2),
{
    assert(!Seq::<Suid>::empty().contains(spec_suid_of(s1)));
    if spec_generate(g0, s1) is Ok {
        let v = spec_suid_of(s1);
        assert(g0.push(v).contains(v)) by {
            assert(g0.push(v)[g0.len() as int] == v);
        }
    }
}

} // verus!
