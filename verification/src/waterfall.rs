use vstd::prelude::*;

verus! {

/// The fixed 11-byte secret `FUZZINGLABS`, compared byte-by-byte against the
/// input prefix.
pub open spec fn secret() -> Seq<u8> {
    seq![70u8, 85u8, 90u8, 90u8, 73u8, 78u8, 71u8, 76u8, 65u8, 66u8, 83u8]
}

/// How many consecutive bytes of `s`, starting at position `i`, agree with
/// the secret at the same positions before the first divergence, the end of
/// `s`, or the end of the secret.
pub open spec fn match_count_from(s: Seq<u8>, i: int) -> nat
    decreases secret().len() - i,
{
    if 0 <= i < s.len() && i < secret().len() && s[i] == secret()[i] {
        1 + match_count_from(s, i + 1)
    } else {
        0
    }
}

/// The length of the longest prefix of `s` that agrees with the secret.
pub open spec fn match_count(s: Seq<u8>) -> nat {
    match_count_from(s, 0)
}

/// The matcher faults exactly when the input begins with the complete
/// secret: the full-match branch then raises the discovery fault.
pub open spec fn waterfall_faults(s: Seq<u8>) -> bool {
    match_count(s) == secret().len()
}

/// The byte of the secret at position `i`.
fn secret_byte(i: usize) -> (b: u8)
    requires
        i < secret().len(),
    ensures
        b == secret()[i as int],
{
    match i {
        0 => 70,
        1 => 85,
        2 => 90,
        3 => 90,
        4 => 73,
        5 => 78,
        6 => 71,
        7 => 76,
        8 => 65,
        9 => 66,
        _ => 83,
    }
}

/// Once the first `n` bytes agree with the secret and position `n` is a
/// divergence or an end, the count from `j` is exactly the distance to `n`.
proof fn lemma_match_count_value(s: Seq<u8>, j: int, n: int)
    requires
        0 <= j <= n,
        n <= s.len(),
        n <= secret().len(),
        forall|k: int| j <= k < n ==> s[k] == secret()[k],
        n == s.len() || n == secret().len() || s[n] != secret()[n],
    ensures
        match_count_from(s, j) == n - j,
    decreases n - j,
{
    if j < n {
        lemma_match_count_value(s, j + 1, n);
    }
}

/// Bounds and prefix facts about `match_count_from`, proved by induction on
/// the distance to the end of the secret.
proof fn lemma_match_count_from_props(s: Seq<u8>, j: int)
    requires
        0 <= j <= s.len(),
        j <= secret().len(),
    ensures
        j + match_count_from(s, j) <= s.len(),
        j + match_count_from(s, j) <= secret().len(),
        forall|k: int| j <= k < j + match_count_from(s, j) ==> s[k] == secret()[k],
        j + match_count_from(s, j) < s.len() && j + match_count_from(s, j) < secret().len()
            ==> s[j + match_count_from(s, j)] != secret()[j + match_count_from(s, j)],
    decreases secret().len() - j,
{
    if j < s.len() && j < secret().len() && s[j] == secret()[j] {
        lemma_match_count_from_props(s, j + 1);
    }
}

/// The count is the length of the longest prefix of the input that agrees
/// with the secret: it is bounded by both lengths, every byte before it
/// matches, and the byte at it (when both sequences reach that far) does
/// not.
pub proof fn lemma_match_count_longest_prefix(s: Seq<u8>)
    ensures
        match_count(s) <= s.len(),
        match_count(s) <= secret().len(),
        forall|k: int| 0 <= k < match_count(s) ==> s[k] == secret()[k],
        match_count(s) < s.len() && match_count(s) < secret().len()
            ==> s[match_count(s) as int] != secret()[match_count(s) as int],
{
    lemma_match_count_from_props(s, 0);
}

/// The matcher's fault class, characterised directly: a call faults exactly
/// on the inputs that begin with the complete secret.
pub proof fn lemma_waterfall_faults_iff_secret_prefix(s: Seq<u8>)
    ensures
        waterfall_faults(s) <==> (s.len() >= secret().len() && s.subrange(
            0,
            secret().len() as int,
        ) == secret()),
{
    lemma_match_count_from_props(s, 0);
    if s.len() >= secret().len() && s.subrange(0, secret().len() as int) == secret() {
        assert forall|k: int| 0 <= k < secret().len() implies s[k] == secret()[k] by {
            assert(s.subrange(0, secret().len() as int)[k] == s[k]);
        }
        lemma_match_count_value(s, 0, secret().len() as int);
    }
    if waterfall_faults(s) {
        assert(s.subrange(0, secret().len() as int) =~= secret());
    }
}

/// Walk the input against the secret one byte at a time and return how many
/// leading bytes matched, stopping at the first divergence. One explicit
/// conditional per matched-byte milestone keeps a distinct branch for each
/// step of progress, so a coverage-guided search can climb toward the secret
/// byte by byte.
pub fn check_secret_waterfall(data: &[u8]) -> (count: usize)
    requires
        !waterfall_faults(data@),
    ensures
        count == match_count(data@),
{
    if data.is_empty() {
        return 0;
    }

    let limit: usize = if data.len() < 11 {
        data.len()
    } else {
        11
    };

    let mut matched: usize = 0;
    let mut i: usize = 0;

    while i < limit
        invariant
            limit == if data@.len() < 11 { data@.len() as int } else { 11 },
            limit <= secret().len(),
            0 <= i <= limit,
            matched == i,
            forall|k: int| 0 <= k < i ==> data@[k] == secret()[k],
        decreases limit - i,
    {
        if data[i] != secret_byte(i) {
            proof {
                lemma_match_count_value(data@, 0, i as int);
            }
            return matched;
        }

        matched = matched + 1;

        // Redundant milestone checks: each creates one distinct code path
        // per byte of progress for a coverage-guided search to discover.
        if matched >= 1 && data[0] == 70 {
            // F
        }
        if matched >= 2 && data[1] == 85 {
            // FU
        }
        if matched >= 3 && data[2] == 90 {
            // FUZ
        }
        if matched >= 4 && data[3] == 90 {
            // FUZZ
        }
        if matched >= 5 && data[4] == 73 {
            // FUZZI
        }
        if matched >= 6 && data[5] == 78 {
            // FUZZIN
        }
        if matched >= 7 && data[6] == 71 {
            // FUZZING
        }
        if matched >= 8 && data[7] == 76 {
            // FUZZINGL
        }
        if matched >= 9 && data[8] == 65 {
            // FUZZINGLA
        }
        if matched >= 10 && data[9] == 66 {
            // FUZZINGLAB
        }
        if matched >= 11 && data[10] == 83 {
            // FUZZINGLABS
        }

        i = i + 1;
    }

    proof {
        lemma_match_count_value(data@, 0, limit as int);
    }

    matched
}

} // verus!
