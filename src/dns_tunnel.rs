//! DNS tunnel codec: carries ciphertext in DNS query names and reads it back
//! from TXT records, for networks where only DNS gets through.
use crate::encoding::{
    ascii_lower, ascii_lowercase, ascii_upper, base32_alphabet, base32_data_len, base32_decode,
    base32_decoding, base32_encode, base32_encoding, decimal_digits, decimal_text,
    is_ascii_char, is_base32_text_char, is_white_space, opt_bytes, symbol_value, trim, trim_start_of,
    trimmed, uppercase, uppercase_of,
};
use vstd::prelude::*;
use vstd::string::*;

verus! {

/// Longest data fragment in one query name (a DNS label holds 63 characters;
/// the rest is left for metadata).
pub const CHUNK_CHARS: usize = 50;

/// Settings of the DNS tunnel.
#[derive(Debug, Clone)]
pub struct DnsTunnelConfig {
    /// Base domain of the tunnel, such as `chat.neo.example.com`.
    pub base_domain: String,
    /// Resolver to use; empty for the system's.
    pub resolver: String,
    /// Seconds between two polls.
    pub poll_interval_secs: u64,
}

impl Default for DnsTunnelConfig {
    fn default() -> (r: Self)
        ensures
            r.base_domain@ == "chat.neo.example.com"@,
            r.resolver@.len() == 0,
            r.poll_interval_secs == 5,
    {
        DnsTunnelConfig {
            base_domain: "chat.neo.example.com".to_owned(),
            resolver: String::new(),
            poll_interval_secs: 5,
        }
    }
}

/// One fragment of a message, as carried in one query name.
#[derive(Debug, Clone)]
pub struct DnsChunk {
    /// Position of the fragment, from 1.
    pub seq: u16,
    /// Number of fragments of the message.
    pub total: u16,
    /// Base-32 text of the fragment.
    pub data: String,
}

/// The ciphertext as it travels in query names: unpadded base-32, lower case.
pub open spec fn dns_text(data: Seq<u8>) -> Seq<char> {
    base32_encoding(false, data).map_values(|c: char| ascii_lower(c))
}

/// Number of fragments of a text of `n` characters.
pub open spec fn chunk_count(n: nat) -> nat {
    (n + 49) / 50
}

/// The `i`-th fragment of `t`, of at most `CHUNK_CHARS` characters.
pub open spec fn fragment(t: Seq<char>, i: int) -> Seq<char> {
    t.subrange(50 * i, if 50 * i + 50 <= t.len() { 50 * i + 50 } else { t.len() as int })
}

/// `{fragment}.{seq}-{total}.{id}.{recipient}.m.{base_domain}`
pub open spec fn message_query_name(
    fragment: Seq<char>,
    seq: nat,
    total: nat,
    short_id: Seq<char>,
    recipient_hash: Seq<char>,
    base_domain: Seq<char>,
) -> Seq<char> {
    fragment + seq!['.'] + decimal_digits(seq) + seq!['-'] + decimal_digits(total) + seq!['.']
        + short_id + seq!['.'] + recipient_hash + seq!['.', 'm', '.'] + base_domain
}

/// The query names that carry `data`, one for each fragment, in order.
pub open spec fn message_query_names(
    data: Seq<u8>,
    recipient_hash: Seq<char>,
    message_id: Seq<char>,
    base_domain: Seq<char>,
) -> Seq<Seq<char>> {
    let t = dns_text(data);
    let n = chunk_count(t.len());
    Seq::new(
        n,
        |i: int|
            message_query_name(
                fragment(t, i),
                (i + 1) as nat,
                n,
                message_id.take(8),
                recipient_hash,
                base_domain,
            ),
    )
}

/// `{my_hash}.p.{base_domain}`
pub open spec fn poll_query_name(my_hash: Seq<char>, base_domain: Seq<char>) -> Seq<char> {
    my_hash + seq!['.', 'p', '.'] + base_domain
}

/// The TXT records trimmed and joined in order.
pub open spec fn joined_records(records: Seq<Seq<char>>) -> Seq<char>
    decreases records.len(),
{
    if records.len() == 0 {
        seq![]
    } else {
        joined_records(records.drop_last()) + trimmed(records.last())
    }
}

/// The ciphertext that TXT records carry: nothing when they hold no text,
/// else what the upper-cased text decodes to.
pub open spec fn dns_response_data(records: Seq<Seq<char>>) -> Option<Seq<u8>> {
    let joined = joined_records(records);
    if joined.len() == 0 {
        None
    } else {
        base32_decoding(uppercase_of(joined))
    }
}

pub open spec fn string_views(v: Seq<String>) -> Seq<Seq<char>> {
    v.map_values(|s: String| s@)
}

/// The fragments of a text, in order.
pub open spec fn dns_fragments(t: Seq<char>) -> Seq<Seq<char>> {
    Seq::new(chunk_count(t.len()), |i: int| fragment(t, i))
}

/// A character of the text carried in query names.
pub open spec fn is_dns_text_char(c: char) -> bool {
    ('a' <= c && c <= 'z') || ('2' <= c && c <= '7')
}

proof fn lemma_alphabet_symbols()
    ensures
        forall|v: int|
            0 <= v < 32 ==> ('A' <= #[trigger] base32_alphabet()[v] && base32_alphabet()[v] <= 'Z') || (
            '2' <= base32_alphabet()[v] && base32_alphabet()[v] <= '7'),
{
    assert forall|v: int| 0 <= v < 32 implies ('A' <= #[trigger] base32_alphabet()[v]
        && base32_alphabet()[v] <= 'Z') || ('2' <= base32_alphabet()[v] && base32_alphabet()[v]
        <= '7') by {
        let a = base32_alphabet();
        assert(a.len() == 32);
    }
}

proof fn lemma_dns_text_chars(data: Seq<u8>)
    ensures
        dns_text(data).len() == base32_data_len(data.len()),
        forall|k: int|
            0 <= k < dns_text(data).len() ==> is_dns_text_char(#[trigger] dns_text(data)[k])
                && ascii_upper(dns_text(data)[k]) == base32_encoding(false, data)[k],
{
    lemma_alphabet_symbols();
    let b = base32_encoding(false, data);
    let t = dns_text(data);
    assert forall|k: int| 0 <= k < t.len() implies is_dns_text_char(#[trigger] t[k]) && ascii_upper(
        t[k],
    ) == b[k] by {
        let v = symbol_value(data, k);
        assert(0 <= v < 32);
        assert(b[k] == base32_alphabet()[v]);
        assert(t[k] == ascii_lower(b[k]));
    }
}

proof fn lemma_trimmed_plain(s: Seq<char>)
    requires
        forall|i: int| 0 <= i < s.len() ==> is_dns_text_char(#[trigger] s[i]),
    ensures
        trimmed(s) == s,
{
    if s.len() > 0 {
        assert(is_dns_text_char(s[0]));
        assert(is_dns_text_char(s[s.len() - 1]));
        assert(!is_white_space(s[0]));
        assert(!is_white_space(s.last()));
    }
    assert(trim_start_of(s) == s);
}

proof fn lemma_join_fragments(t: Seq<char>, k: int)
    requires
        forall|i: int| 0 <= i < t.len() ==> is_dns_text_char(#[trigger] t[i]),
        0 <= k <= chunk_count(t.len()),
    ensures
        joined_records(dns_fragments(t).take(k)) == t.subrange(
            0,
            if 50 * k <= t.len() { 50 * k } else { t.len() as int },
        ),
    decreases k,
{
    let f = dns_fragments(t);
    if k == 0 {
        assert(f.take(0) =~= Seq::<Seq<char>>::empty());
        assert(t.subrange(0, 0) =~= Seq::<char>::empty());
    } else {
        lemma_join_fragments(t, k - 1);
        assert(f.take(k).drop_last() =~= f.take(k - 1));
        let fr = fragment(t, k - 1);
        assert(f.take(k).last() == fr);
        assert(50 * (k - 1) < t.len());
        assert forall|i: int| 0 <= i < fr.len() implies is_dns_text_char(#[trigger] fr[i]) by {
            assert(fr[i] == t[50 * (k - 1) + i]);
        }
        lemma_trimmed_plain(fr);
        let end = if 50 * k <= t.len() { 50 * k } else { t.len() as int };
        assert(t.subrange(0, 50 * (k - 1)) + fr =~= t.subrange(0, end));
    }
}

/// Splits ciphertext into the DNS query names that carry it to the holder of
/// `recipient_hash`: the base-32 text in fragments of at most `CHUNK_CHARS`
/// characters, each with its position, the count, and the first eight
/// characters of `message_id`.
pub fn encode_message_as_dns(
    encrypted_data: &[u8],
    recipient_hash: &str,
    message_id: &str,
    base_domain: &str,
) -> (r: Vec<String>)
    requires
        message_id@.len() >= 8,
    ensures
        string_views(r@) == message_query_names(
            encrypted_data@,
            recipient_hash@,
            message_id@,
            base_domain@,
        ),
{
    let b32 = base32_encode(false, encrypted_data);
    let text = ascii_lowercase(b32.as_str());
    let ghost t = dns_text(encrypted_data@);
    assert(text@ =~= t);
    let len = text.as_str().unicode_len();
    let total: usize = if len % CHUNK_CHARS == 0 {
        len / CHUNK_CHARS
    } else {
        len / CHUNK_CHARS + 1
    };
    assert(total == chunk_count(len as nat));
    let total_text = decimal_text(total);
    let short_id = message_id.substring_char(0, 8);
    let mut names: Vec<String> = Vec::new();
    let mut start: usize = 0;
    let mut i: usize = 0;
    while start < len
        invariant
            len == t.len(),
            text@ == t,
            total == chunk_count(len as nat),
            total_text@ == decimal_digits(total as nat),
            short_id@ == message_id@.take(8),
            start <= len,
            start < len ==> start == 50 * i,
            start < len <==> i < total,
            i <= total,
            names@.len() == i,
            forall|j: int|
                0 <= j < i ==> #[trigger] names@[j]@ == message_query_name(
                    fragment(t, j),
                    (j + 1) as nat,
                    total as nat,
                    message_id@.take(8),
                    recipient_hash@,
                    base_domain@,
                ),
        decreases len - start,
    {
        let end: usize = if len - start > CHUNK_CHARS {
            start + CHUNK_CHARS
        } else {
            len
        };
        let mut name = text.as_str().substring_char(start, end).to_owned();
        assert(name@ =~= fragment(t, i as int));
        proof {
            reveal_strlit(".");
            reveal_strlit("-");
            reveal_strlit(".m.");
            assert("."@ =~= seq!['.']);
            assert("-"@ =~= seq!['-']);
            assert(".m."@ =~= seq!['.', 'm', '.']);
        }
        name.append(".");
        name.append(decimal_text(i + 1).as_str());
        name.append("-");
        name.append(total_text.as_str());
        name.append(".");
        name.append(short_id);
        name.append(".");
        name.append(recipient_hash);
        name.append(".m.");
        name.append(base_domain);
        assert(name@ =~= message_query_name(
            fragment(t, i as int),
            (i + 1) as nat,
            total as nat,
            message_id@.take(8),
            recipient_hash@,
            base_domain@,
        ));
        names.push(name);
        start = end;
        i = i + 1;
    }
    assert(string_views(names@) =~= message_query_names(
        encrypted_data@,
        recipient_hash@,
        message_id@,
        base_domain@,
    ));
    names
}

/// The query name with which a node asks whether messages wait for it.
pub fn encode_poll_as_dns(my_hash: &str, base_domain: &str) -> (r: String)
    ensures
        r@ == poll_query_name(my_hash@, base_domain@),
{
    proof {
        reveal_strlit(".p.");
        assert(".p."@ =~= seq!['.', 'p', '.']);
    }
    let mut name = my_hash.to_owned();
    name.append(".p.");
    name.append(base_domain);
    assert(name@ =~= poll_query_name(my_hash@, base_domain@));
    name
}

/// Reads ciphertext back from TXT records: trims each record, joins them in
/// order, upper-cases and base-32 decodes the text. `None` means that no data
/// is there yet: no text, or text that does not decode. The fragments of the
/// query names that carry some data read back to that data.
pub fn decode_dns_response(txt_records: &[String]) -> (r: Option<Vec<u8>>)
    ensures
        opt_bytes(r) == dns_response_data(string_views(txt_records@)),
        forall|data: Seq<u8>|
            data.len() > 0 && string_views(txt_records@) == #[trigger] dns_fragments(dns_text(data))
                ==> opt_bytes(r) == Some(data),
        (forall|i: int|
            0 <= i < joined_records(string_views(txt_records@)).len() ==> is_ascii_char(
                #[trigger] joined_records(string_views(txt_records@))[i],
            )) ==> (r is None <==> (joined_records(string_views(txt_records@)).len() == 0 || exists|
            i: int|
            0 <= i < joined_records(string_views(txt_records@)).len() && !is_base32_text_char(
                #[trigger] joined_records(string_views(txt_records@))[i],
            ))),
{
    let ghost recs = string_views(txt_records@);
    let mut combined = String::new();
    let mut i: usize = 0;
    while i < txt_records.len()
        invariant
            i <= txt_records@.len(),
            recs == string_views(txt_records@),
            combined@ == joined_records(recs.take(i as int)),
        decreases txt_records@.len() - i,
    {
        proof {
            assert(recs.take(i + 1).drop_last() =~= recs.take(i as int));
        }
        combined.append(trim(txt_records[i].as_str()));
        i += 1;
    }
    assert(recs.take(i as int) =~= recs);
    proof {
        assert forall|data: Seq<u8>|
            data.len() > 0 && recs == #[trigger] dns_fragments(dns_text(data)) implies combined@
                == dns_text(data) && combined@.len() > 0 by {
            let t = dns_text(data);
            lemma_dns_text_chars(data);
            lemma_join_fragments(t, chunk_count(t.len()) as int);
            assert(dns_fragments(t).take(chunk_count(t.len()) as int) =~= dns_fragments(t));
            assert(t.subrange(0, t.len() as int) =~= t);
        }
    }
    if combined.as_str().is_empty() {
        return None;
    }
    let upper = uppercase(combined.as_str());
    proof {
        assert forall|data: Seq<u8>|
            data.len() > 0 && recs == #[trigger] dns_fragments(dns_text(data)) implies upper@
                == base32_encoding(false, data) by {
            let t = dns_text(data);
            lemma_dns_text_chars(data);
            assert(combined@ == t);
            assert forall|k: int| 0 <= k < t.len() implies is_ascii_char(#[trigger] t[k]) by {
                assert(is_dns_text_char(t[k]));
            }
            assert(upper@ =~= base32_encoding(false, data));
        }
    }
    let decoded = base32_decode(false, upper.as_str());
    proof {
        if forall|i: int| 0 <= i < combined@.len() ==> is_ascii_char(#[trigger] combined@[i]) {
            assert forall|i: int| 0 <= i < combined@.len() implies is_base32_text_char(
                #[trigger] upper@[i],
            ) == is_base32_text_char(combined@[i]) by {
                assert(upper@[i] == ascii_upper(combined@[i]));
            }
            if decoded is None {
                let i = choose|i: int|
                    0 <= i < upper@.len() && !is_base32_text_char(#[trigger] upper@[i]);
                assert(!is_base32_text_char(combined@[i]));
            } else {
                assert forall|i: int| 0 <= i < combined@.len() implies is_base32_text_char(
                    #[trigger] combined@[i],
                ) by {
                    assert(is_base32_text_char(upper@[i]));
                }
            }
        }
    }
    decoded
}

} // verus!
