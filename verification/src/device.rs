//! Capture-device identifiers. A device's id is `input_<index>`, where
//! `index` is its zero-based position in the host's input-device
//! enumeration; the id is the only identifier shape callers ever see, and
//! it round-trips through listing and resolution within one enumeration
//! snapshot.

use vstd::prelude::*;
use crate::errors::StartError;

verus! {

/// A capture device as reported to callers: a display name and a stable,
/// derivable id.
#[derive(Clone, Debug)]
pub struct AudioDevice {
    pub name: String,
    pub id: String,
}

pub open spec fn is_dec_digit(c: char) -> bool {
    48 <= c as int <= 57
}

pub open spec fn digit_val(c: char) -> int {
    c as int - 48
}

/// Value of a decimal digit string, most significant digit first.
pub open spec fn digits_val(s: Seq<char>) -> int
    decreases s.len(),
{
    if s.len() == 0 {
        0
    } else {
        digits_val(s.drop_last()) * 10 + digit_val(s.last())
    }
}

pub open spec fn all_dec_digits(s: Seq<char>) -> bool {
    forall|i: int| 0 <= i < s.len() ==> is_dec_digit(#[trigger] s[i])
}

pub open spec fn has_input_prefix(s: Seq<char>) -> bool {
    &&& s.len() >= 6
    &&& s[0] == 'i'
    &&& s[1] == 'n'
    &&& s[2] == 'p'
    &&& s[3] == 'u'
    &&& s[4] == 't'
    &&& s[5] == '_'
}

/// A well-formed device id: `input_` followed by at least one decimal digit.
pub open spec fn valid_device_id(s: Seq<char>) -> bool {
    &&& has_input_prefix(s)
    &&& s.len() > 6
    &&& all_dec_digits(s.subrange(6, s.len() as int))
}

/// The enumeration index a well-formed id denotes.
pub open spec fn device_index_of(s: Seq<char>) -> int {
    digits_val(s.subrange(6, s.len() as int))
}

pub open spec fn dec_digit_char(d: int) -> char {
    if d == 0 {
        '0'
    } else if d == 1 {
        '1'
    } else if d == 2 {
        '2'
    } else if d == 3 {
        '3'
    } else if d == 4 {
        '4'
    } else if d == 5 {
        '5'
    } else if d == 6 {
        '6'
    } else if d == 7 {
        '7'
    } else if d == 8 {
        '8'
    } else {
        '9'
    }
}

/// Decimal digit string of `n`, most significant digit first, no leading
/// zeros (a single `0` for zero itself).
pub open spec fn dec_digits(n: nat) -> Seq<char>
    decreases n,
{
    if n < 10 {
        seq![dec_digit_char(n as int)]
    } else {
        dec_digits(n / 10).push(dec_digit_char((n % 10) as int))
    }
}

/// The id issued for the input device at enumeration index `n`.
pub open spec fn device_id_seq(n: nat) -> Seq<char> {
    seq!['i', 'n', 'p', 'u', 't', '_'] + dec_digits(n)
}

proof fn lemma_digits_val_nonneg(s: Seq<char>)
    requires
        all_dec_digits(s),
    ensures
        0 <= digits_val(s),
    decreases s.len(),
{
    if s.len() > 0 {
        assert(all_dec_digits(s.drop_last())) by {
            assert forall|i: int| 0 <= i < s.drop_last().len() implies is_dec_digit(
                s.drop_last()[i],
            ) by {
                assert(s.drop_last()[i] == s[i]);
            }
        }
        lemma_digits_val_nonneg(s.drop_last());
        assert(is_dec_digit(s.last()));
    }
}

/// A digit-string prefix never exceeds the whole string in value.
proof fn lemma_digits_val_prefix_le(s: Seq<char>, k: int)
    requires
        all_dec_digits(s),
        0 <= k <= s.len(),
    ensures
        digits_val(s.subrange(0, k)) <= digits_val(s),
    decreases s.len() - k,
{
    if k == s.len() {
        assert(s.subrange(0, k) =~= s);
    } else {
        lemma_digits_val_prefix_le(s, k + 1);
        let p = s.subrange(0, k);
        let q = s.subrange(0, k + 1);
        assert(q.drop_last() =~= p);
        assert(q.last() == s[k]);
        assert(all_dec_digits(p)) by {
            assert forall|i: int| 0 <= i < p.len() implies is_dec_digit(p[i]) by {
                assert(p[i] == s[i]);
            }
        }
        lemma_digits_val_nonneg(p);
        assert(is_dec_digit(s[k]));
        assert(digits_val(p) <= digits_val(p) * 10 + digit_val(s[k]));
    }
}

/// Parses a device id of the form `input_<index>` back to its enumeration
/// index. Anything malformed -- a missing or different prefix, an empty or
/// non-digit index part, or an index that does not fit the machine word --
/// resolves to nothing and is reported as `DeviceNotFound`, exactly as a
/// stale id naming a vanished device would be.
pub fn resolve_device_index(id: &str) -> (r: Result<usize, StartError>)
    ensures
        r is Ok <==> valid_device_id(id@) && device_index_of(id@) <= usize::MAX,
        r matches Ok(ix) ==> ix as int == device_index_of(id@),
        r is Err ==> r == Err::<usize, StartError>(StartError::DeviceNotFound),
{
    let n = id.unicode_len();
    if n < 7 {
        return Err(StartError::DeviceNotFound);
    }
    if !(id.get_char(0) == 'i' && id.get_char(1) == 'n' && id.get_char(2) == 'p' && id.get_char(3)
        == 'u' && id.get_char(4) == 't' && id.get_char(5) == '_') {
        return Err(StartError::DeviceNotFound);
    }
    let mut acc: u128 = 0;
    let mut k: usize = 6;
    while k < n
        invariant
            6 <= k <= n,
            n == id@.len(),
            has_input_prefix(id@),
            n >= 7,
            all_dec_digits(id@.subrange(6, k as int)),
            acc as int == digits_val(id@.subrange(6, k as int)),
            acc <= usize::MAX as u128,
        decreases n - k,
    {
        let c = id.get_char(k);
        let code = c as u32;
        if code < 48 || code > 57 {
            proof {
                if valid_device_id(id@) {
                    assert(id@.subrange(6, n as int)[k - 6] == id@[k as int]);
                }
            }
            return Err(StartError::DeviceNotFound);
        }
        proof {
            assert(id@.subrange(6, k as int + 1).drop_last() =~= id@.subrange(6, k as int));
            assert(id@.subrange(6, k as int + 1).last() == id@[k as int]);
            assert(all_dec_digits(id@.subrange(6, k as int + 1))) by {
                assert forall|i: int| 0 <= i < k + 1 - 6 implies is_dec_digit(
                    #[trigger] id@.subrange(6, k as int + 1)[i],
                ) by {
                    assert(id@.subrange(6, k as int + 1)[i] == id@[6 + i]);
                    if i < k - 6 {
                        assert(id@.subrange(6, k as int)[i] == id@[6 + i]);
                    }
                }
            }
        }
        acc = acc * 10 + ((code - 48) as u128);
        if acc > usize::MAX as u128 {
            proof {
                if valid_device_id(id@) {
                    let d = id@.subrange(6, n as int);
                    assert(d.subrange(0, k + 1 - 6) =~= id@.subrange(6, k as int + 1));
                    lemma_digits_val_prefix_le(d, k + 1 - 6);
                }
            }
            return Err(StartError::DeviceNotFound);
        }
        k = k + 1;
    }
    proof {
        assert(id@.subrange(6, k as int) =~= id@.subrange(6, n as int));
    }
    Ok(acc as usize)
}

/// Appends the decimal digits of `n`, most significant first, to `out`.
fn append_digits(out: &mut String, n: usize)
    ensures
        final (out)@ == old(out)@ + dec_digits(n as nat),
    decreases n,
{
    let digit_table = "0123456789";
    proof {
        reveal_strlit("0123456789");
        assert(digit_table.is_ascii()) by {
            assert forall|i: int| 0 <= i < digit_table@.len() implies '\0'
                <= #[trigger] digit_table@[i] <= '\u{7f}' by {
                assert(digit_table@ =~= seq!['0', '1', '2', '3', '4', '5', '6', '7', '8', '9']);
            }
        }
        assert(digit_table@ =~= seq!['0', '1', '2', '3', '4', '5', '6', '7', '8', '9']);
    }
    let ghost entry = out@;
    if n >= 10 {
        append_digits(out, n / 10);
    }
    let d = n % 10;
    let piece = digit_table.substring_ascii(d, d + 1);
    proof {
        assert(piece@ =~= seq![digit_table@[d as int]]);
        assert(digit_table@[d as int] == dec_digit_char(d as int));
    }
    out.append(piece);
    proof {
        if n < 10 {
            assert(out@ =~= entry + dec_digits(n as nat));
        } else {
            assert(dec_digits(n as nat) == dec_digits((n / 10) as nat).push(
                dec_digit_char((n % 10) as int),
            ));
            assert(out@ =~= entry + dec_digits(n as nat));
        }
    }
}

/// The id issued for the input device at enumeration index `index`:
/// `input_` followed by the index's decimal digits.
fn format_device_id(index: usize) -> (r: String)
    ensures
        r@ == device_id_seq(index as nat),
{
    let mut r = String::from_str("input_");
    proof {
        reveal_strlit("input_");
    }
    append_digits(&mut r, index);
    proof {
        assert(r@ =~= device_id_seq(index as nat));
    }
    r
}

proof fn lemma_digit_char_val(d: int)
    requires
        0 <= d <= 9,
    ensures
        is_dec_digit(dec_digit_char(d)),
        digit_val(dec_digit_char(d)) == d,
{
    assert('0' as int == 48);
    assert('1' as int == 49);
    assert('2' as int == 50);
    assert('3' as int == 51);
    assert('4' as int == 52);
    assert('5' as int == 53);
    assert('6' as int == 54);
    assert('7' as int == 55);
    assert('8' as int == 56);
    assert('9' as int == 57);
}

proof fn lemma_dec_digits_val(n: nat)
    ensures
        all_dec_digits(dec_digits(n)),
        digits_val(dec_digits(n)) == n,
        dec_digits(n).len() >= 1,
    decreases n,
{
    if n < 10 {
        lemma_digit_char_val(n as int);
        let s = dec_digits(n);
        assert(s.drop_last() =~= Seq::<char>::empty());
        assert(digits_val(s.drop_last()) == 0);
        assert(s.last() == dec_digit_char(n as int));
        assert(digits_val(s) == digits_val(s.drop_last()) * 10 + digit_val(s.last()));
        assert(digits_val(s) == n);
    } else {
        lemma_dec_digits_val(n / 10);
        lemma_digit_char_val((n % 10) as int);
        vstd::arithmetic::div_mod::lemma_fundamental_div_mod(n as int, 10);
        let s = dec_digits(n);
        let p = dec_digits(n / 10);
        assert(s == p.push(dec_digit_char((n % 10) as int)));
        assert(s.drop_last() =~= p);
        assert(s.last() == dec_digit_char((n % 10) as int));
        assert(all_dec_digits(s)) by {
            assert forall|i: int| 0 <= i < s.len() implies is_dec_digit(s[i]) by {
                if i < p.len() {
                    assert(s[i] == p[i]);
                }
            }
        }
    }
}

/// Law: device ids round-trip. The id issued for enumeration index `n` is
/// a well-formed device id and denotes exactly `n`, so an id obtained from
/// the device listing resolves back to the same enumeration position
/// within a single enumeration snapshot.
pub proof fn lemma_device_id_round_trip(n: nat)
    ensures
        valid_device_id(device_id_seq(n)),
        device_index_of(device_id_seq(n)) == n,
{
    lemma_dec_digits_val(n);
    let s = device_id_seq(n);
    assert(s.subrange(6, s.len() as int) =~= dec_digits(n));
    assert(all_dec_digits(s.subrange(6, s.len() as int)));
}

/// The devices listed for a given sequence of enumerated name lookups:
/// position `i` contributes `(name, i)` when its name was retrieved, and
/// is skipped -- still consuming index `i` -- when it was not.
pub open spec fn device_entries(names: Seq<Option<String>>) -> Seq<(Seq<char>, int)>
    decreases names.len(),
{
    if names.len() == 0 {
        Seq::empty()
    } else {
        device_entries(names.drop_last()) + if names.last() is Some {
            seq![(names.last()->0@, names.len() - 1)]
        } else {
            Seq::empty()
        }
    }
}

/// Builds the device listing from the enumerated input-device names, in
/// enumeration order. A device whose name could not be retrieved is
/// silently skipped but still consumes its enumeration index, so the ids
/// of the remaining devices stay aligned with the host's order; partial
/// results are valid. Never fails.
pub fn build_device_list(names: &Vec<Option<String>>) -> (devices: Vec<AudioDevice>)
    ensures
        devices@.len() == device_entries(names@).len(),
        forall|j: int|
            0 <= j < devices@.len() ==> #[trigger] devices@[j].name@ == device_entries(names@)[j].0
                && devices@[j].id@ == device_id_seq(device_entries(names@)[j].1 as nat),
{
    let mut devices: Vec<AudioDevice> = Vec::new();
    let mut i: usize = 0;
    while i < names.len()
        invariant
            i <= names@.len(),
            devices@.len() == device_entries(names@.take(i as int)).len(),
            forall|j: int|
                0 <= j < devices@.len() ==> #[trigger] devices@[j].name@ == device_entries(
                    names@.take(i as int),
                )[j].0 && devices@[j].id@ == device_id_seq(
                    device_entries(names@.take(i as int))[j].1 as nat,
                ),
        decreases names@.len() - i,
    {
        let ghost pre = device_entries(names@.take(i as int));
        let ghost dpre = devices@;
        proof {
            assert(names@.take(i as int + 1).drop_last() =~= names@.take(i as int));
            assert(names@.take(i as int + 1).last() == names@[i as int]);
        }
        match &names[i] {
            Some(name) => {
                let d = AudioDevice { name: name.clone(), id: format_device_id(i) };
                devices.push(d);
                proof {
                    let post = device_entries(names@.take(i as int + 1));
                    assert(post =~~= pre + seq![(names@[i as int]->0@, i as int)]);
                    assert forall|j: int| 0 <= j < devices@.len() implies #[trigger] devices@[j].name@
                        == post[j].0 && devices@[j].id@ == device_id_seq(post[j].1 as nat) by {
                        if j < pre.len() {
                            assert(devices@[j] == dpre[j]);
                            assert(post[j] == pre[j]);
                        } else {
                            assert(devices@[j] == devices@.last());
                            assert(post[j] == (names@[i as int]->0@, i as int));
                        }
                    }
                }
            },
            None => {
                proof {
                    let post = device_entries(names@.take(i as int + 1));
                    assert(post =~~= pre);
                }
            },
        }
        i = i + 1;
    }
    proof {
        assert(names@.take(names@.len() as int) =~= names@);
    }
    devices
}

} // verus!
