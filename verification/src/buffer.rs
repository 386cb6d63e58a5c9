use vstd::prelude::*;

verus! {

/// The four-byte ASCII marker `FUZZ` that gates all buffer processing.
pub open spec fn has_marker(s: Seq<u8>) -> bool {
    s.len() >= 4 && s[0] == 70u8 && s[1] == 85u8 && s[2] == 90u8 && s[3] == 90u8
}

/// The buffer processor faults exactly when the marker is present but the
/// attacker-controlled size byte at index 4 is missing (length exactly 4) or
/// declares more bytes than actually follow it: the unchecked read past the
/// end would then go out of bounds.
pub open spec fn buffer_faults(s: Seq<u8>) -> bool {
    has_marker(s) && (s.len() < 5 || 5 + s[4] as int > s.len())
}

/// What a non-faulting call returns: the `s[4]` bytes that follow the size
/// byte when the marker is present, and an empty sequence otherwise.
pub open spec fn buffer_output(s: Seq<u8>) -> Seq<u8> {
    if has_marker(s) && !buffer_faults(s) {
        s.subrange(5, 5 + s[4] as int)
    } else {
        Seq::empty()
    }
}

/// Return an empty buffer for any input shorter than 4 bytes or not starting
/// with the marker. On a marker match, read the one-byte size at index 4 and
/// copy that many subsequent bytes, in order, into the result.
pub fn process_buffer(data: &[u8]) -> (result: Vec<u8>)
    requires
        !buffer_faults(data@),
    ensures
        result@ == buffer_output(data@),
        !has_marker(data@) ==> result@ == Seq::<u8>::empty(),
{
    if data.len() < 4 {
        return Vec::new();
    }

    if data[0] == 70 && data[1] == 85 && data[2] == 90 && data[3] == 90 {
        let size = data[4] as usize;
        let mut result: Vec<u8> = Vec::new();

        let mut i: usize = 5;
        while i < 5 + size
            invariant
                5 <= i <= 5 + size,
                size == data@[4] as int,
                5 + size <= data@.len(),
                result@ == data@.subrange(5, i as int),
            decreases 5 + size - i,
        {
            result.push(data[i]);
            proof {
                assert(result@ =~= data@.subrange(5, i as int + 1));
            }
            i = i + 1;
        }

        proof {
            assert(result@ =~= buffer_output(data@));
        }
        return result;
    }

    proof {
        assert(Seq::<u8>::empty() =~= buffer_output(data@));
    }
    Vec::new()
}

} // verus!
