//! The round trip from the message formatter back through the
//! text-protocol parser: a search response built from CR/LF-free fields is
//! re-parsed as a complete message.
use vstd::prelude::*;
use crate::message::{crlf, extra_headers_text, header_line, search_response_text};
use crate::parse::{
    find_byte_from, find_line_end, lemma_find_byte_bounds, parse_headers_from, spec_header_at,
    spec_parse, spec_request_line_at,
};
use crate::text::{CR, LF, bytes_of, dec_text, lemma_dec_text_printable, printable_ascii};

verus! {

/// The wire bytes of one `name: value` header line, without its CRLF.
pub open spec fn pair_line(p: (Seq<char>, Seq<char>)) -> Seq<u8> {
    bytes_of(p.0) + seq![58u8, 32u8] + bytes_of(p.1)
}

/// CRLF-terminated lines, concatenated.
pub open spec fn lines_block(ls: Seq<Seq<u8>>) -> Seq<u8>
    decreases ls.len(),
{
    if ls.len() == 0 {
        Seq::empty()
    } else {
        ls[0] + seq![CR, LF] + lines_block(ls.drop_first())
    }
}

/// A line the parser accepts as a header: non-empty, free of CR and LF,
/// holding a colon but not starting with one.
pub open spec fn header_line_ok(l: Seq<u8>) -> bool {
    l.len() > 0 && l[0] != 58 && (exists|c: int| 0 <= c < l.len() && l[c] == 58) && (forall|j: int|
        0 <= j < l.len() ==> l[j] != CR && l[j] != LF)
}

/// `bytes_of` distributes over concatenation.
pub proof fn lemma_bytes_of_add(a: Seq<char>, b: Seq<char>)
    ensures
        bytes_of(a + b) == bytes_of(a) + bytes_of(b),
{
    assert(bytes_of(a + b) =~= bytes_of(a) + bytes_of(b));
}

proof fn lemma_lines_block_cons(l: Seq<u8>, rest: Seq<Seq<u8>>)
    ensures
        lines_block(seq![l] + rest) == l + seq![CR, LF] + lines_block(rest),
{
    let ls = seq![l] + rest;
    assert(ls[0] == l);
    assert(ls.drop_first() =~= rest);
    assert(lines_block(ls) =~= l + seq![CR, LF] + lines_block(rest));
}

proof fn lemma_find_line_end_at(b: Seq<u8>, i: int, e: int)
    requires
        0 <= i <= e,
        e + 2 <= b.len(),
        forall|j: int| i <= j < e ==> b[j] != CR,
        b[e] == CR,
        b[e + 1] == LF,
    ensures
        find_line_end(b, i) == Some(e),
    decreases e - i,
{
    if i < e {
        lemma_find_line_end_at(b, i + 1, e);
    }
}

proof fn lemma_find_byte_some(b: Seq<u8>, i: int, e: int, x: u8)
    requires
        exists|c: int| i <= c < e && b[c] == x,
    ensures
        find_byte_from(b, i, e, x) is Some,
    decreases e - i,
{
    if i < e && b[i] != x {
        let c = choose|c: int| i <= c < e && b[c] == x;
        assert(i + 1 <= c < e && b[c] == x);
        lemma_find_byte_some(b, i + 1, e, x);
    }
}

/// The header section assembled from well-formed lines followed by an
/// empty line parses to completion.
proof fn lemma_parse_headers_block(b: Seq<u8>, i: int, ls: Seq<Seq<u8>>)
    requires
        0 <= i <= b.len(),
        b.subrange(i, b.len() as int) == lines_block(ls) + seq![CR, LF],
        forall|k: int| 0 <= k < ls.len() ==> header_line_ok(#[trigger] ls[k]),
    ensures
        parse_headers_from(b, i) is Done,
    decreases ls.len(),
{
    let tail = b.subrange(i, b.len() as int);
    assert(forall|k: int| 0 <= k < tail.len() ==> tail[k] == b[i + k]);
    if ls.len() == 0 {
        assert(tail =~= seq![CR, LF]);
        assert(b.len() == i + 2);
        assert(b[i] == CR && b[i + 1] == LF);
        assert(find_line_end(b, i) == Some(i));
        assert(parse_headers_from(b, i) is Done);
    } else {
        let l0 = ls[0];
        let rest = ls.drop_first();
        assert(header_line_ok(l0));
        assert(lines_block(ls) == l0 + seq![CR, LF] + lines_block(rest));
        let e = i + l0.len() as int;
        assert(tail.len() == lines_block(ls).len() + 2);
        assert(lines_block(ls).len() == l0.len() + 2 + lines_block(rest).len());
        assert(e + 2 <= b.len());
        assert(forall|k: int| 0 <= k < lines_block(ls).len() ==> tail[k] == lines_block(ls)[k]);
        assert(forall|k: int| 0 <= k < l0.len() ==> lines_block(ls)[k] == l0[k]);
        assert(forall|j: int| i <= j < e ==> b[j] == l0[j - i] && b[j] != CR) by {
            assert(forall|j: int| i <= j < e ==> b[j] == tail[j - i]);
        }
        assert(lines_block(ls)[l0.len() as int] == CR);
        assert(lines_block(ls)[l0.len() as int + 1] == LF);
        assert(b[e] == tail[e - i] && b[e + 1] == tail[e - i + 1]);
        assert(b[e] == CR && b[e + 1] == LF);
        lemma_find_line_end_at(b, i, e);
        assert(e != i);
        let c0 = choose|c: int| 0 <= c < l0.len() && l0[c] == 58;
        assert(b[i + c0] == 58);
        lemma_find_byte_some(b, i, e, 58);
        assert(b[i] == l0[0] && l0[0] != 58);
        assert(find_byte_from(b, i, e, 58) == find_byte_from(b, i + 1, e, 58));
        lemma_find_byte_bounds(b, i + 1, e, 58);
        let c = find_byte_from(b, i, e, 58)->0;
        assert(c != i);
        assert(spec_header_at(b, i, e) is Some);
        assert(b.len() - (e + 2) == lines_block(rest).len() + 2);
        assert forall|k: int| 0 <= k < b.len() - (e + 2) implies b[e + 2 + k] == (lines_block(rest)
            + seq![CR, LF])[k] by {
            let m = l0.len() as int + 2 + k;
            assert(b[e + 2 + k] == tail[m]);
            assert(tail[m] == (lines_block(ls) + seq![CR, LF])[m]);
            if k < lines_block(rest).len() {
                assert((lines_block(ls) + seq![CR, LF])[m] == lines_block(ls)[m]);
                assert(lines_block(ls)[m] == lines_block(rest)[k]);
            } else {
                assert((lines_block(ls) + seq![CR, LF])[m] == seq![CR, LF][m - lines_block(
                    ls,
                ).len()]);
            }
        }
        assert(b.subrange(e + 2, b.len() as int) =~= lines_block(rest) + seq![CR, LF]);
        lemma_parse_headers_block(b, e + 2, rest);
        assert(parse_headers_from(b, i) is Done);
    }
}

/// The wire bytes of one extra-header line.
pub open spec fn pair_lines(extras: Seq<(Seq<char>, Seq<char>)>) -> Seq<Seq<u8>> {
    extras.map_values(|p: (Seq<char>, Seq<char>)| pair_line(p))
}

proof fn lemma_extras_block(extras: Seq<(Seq<char>, Seq<char>)>)
    ensures
        lines_block(pair_lines(extras)) == bytes_of(extra_headers_text(extras)),
    decreases extras.len(),
{
    if extras.len() == 0 {
        assert(lines_block(pair_lines(extras)) =~= bytes_of(extra_headers_text(extras)));
    } else {
        let p = extras[0];
        let rest = extras.drop_first();
        assert(pair_lines(extras)[0] == pair_line(p));
        assert(pair_lines(extras).drop_first() =~= pair_lines(rest));
        lemma_extras_block(rest);
        assert(extra_headers_text(extras) == header_line(p.0, p.1) + extra_headers_text(rest));
        lemma_bytes_of_add(header_line(p.0, p.1), extra_headers_text(rest));
        assert(bytes_of(header_line(p.0, p.1)) =~= pair_line(p) + seq![CR, LF]);
        assert(lines_block(pair_lines(extras)) =~= bytes_of(extra_headers_text(extras)));
    }
}

/// A message built by the search response formatter from fields free of
/// carriage returns and line feeds is re-parsed by the text-protocol
/// parser as a complete message: nothing the formatter emits is lost,
/// truncated or misread on the way back in.
#[verifier::rlimit(100)]
pub proof fn lemma_search_response_round_trip(
    max_age: nat,
    date: Seq<char>,
    location: Seq<char>,
    server: Seq<char>,
    st: Seq<char>,
    usn: Seq<char>,
    extras: Seq<(Seq<char>, Seq<char>)>,
)
    requires
        printable_ascii(date),
        printable_ascii(location),
        printable_ascii(server),
        printable_ascii(st),
        printable_ascii(usn),
        forall|k: int|
            0 <= k < extras.len() ==> printable_ascii((#[trigger] extras[k]).0) && printable_ascii(
                extras[k].1,
            ) && extras[k].0.len() > 0 && extras[k].0[0] != ':',
    ensures
        spec_parse(
            bytes_of(
                search_response_text(
                    max_age,
                    date,
                    location,
                    server,
                    st,
                    usn,
                    extra_headers_text(extras),
                ),
            ),
        ) is Complete,
{
    reveal_strlit("HTTP/1.1 200 OK");
    reveal_strlit("CACHE-CONTROL");
    reveal_strlit("max-age=");
    reveal_strlit("DATE");
    reveal_strlit("EXT:");
    reveal_strlit("LOCATION");
    reveal_strlit("SERVER");
    reveal_strlit("ST");
    reveal_strlit("USN");
    lemma_dec_text_printable(max_age);
    let text = search_response_text(
        max_age,
        date,
        location,
        server,
        st,
        usn,
        extra_headers_text(extras),
    );
    let b = bytes_of(text);
    let status_b = bytes_of("HTTP/1.1 200 OK"@);
    let cache_l = pair_line(("CACHE-CONTROL"@, "max-age="@ + dec_text(max_age)));
    let date_l = pair_line(("DATE"@, date));
    let ext_l = bytes_of("EXT:"@);
    let loc_l = pair_line(("LOCATION"@, location));
    let srv_l = pair_line(("SERVER"@, server));
    let st_l = pair_line(("ST"@, st));
    let usn_l = pair_line(("USN"@, usn));
    let fixed = seq![cache_l, date_l, ext_l, loc_l, srv_l, st_l, usn_l];
    let lines = fixed + pair_lines(extras);

    // The message bytes are the status line, then the header block, then
    // the final empty line.
    assert(bytes_of(crlf()) =~= seq![CR, LF]);
    assert(bytes_of(header_line("CACHE-CONTROL"@, "max-age="@ + dec_text(max_age))) =~= cache_l
        + seq![CR, LF]);
    assert(bytes_of(header_line("DATE"@, date)) =~= date_l + seq![CR, LF]);
    assert(bytes_of(header_line("LOCATION"@, location)) =~= loc_l + seq![CR, LF]);
    assert(bytes_of(header_line("SERVER"@, server)) =~= srv_l + seq![CR, LF]);
    assert(bytes_of(header_line("ST"@, st)) =~= st_l + seq![CR, LF]);
    assert(bytes_of(header_line("USN"@, usn)) =~= usn_l + seq![CR, LF]);
    lemma_extras_block(extras);

    assert(lines =~= seq![cache_l] + (seq![date_l] + (seq![ext_l] + (seq![loc_l] + (seq![srv_l]
        + (seq![st_l] + (seq![usn_l] + pair_lines(extras))))))));
    lemma_lines_block_cons(cache_l, seq![date_l] + (seq![ext_l] + (seq![loc_l] + (seq![srv_l]
        + (seq![st_l] + (seq![usn_l] + pair_lines(extras)))))));
    lemma_lines_block_cons(date_l, seq![ext_l] + (seq![loc_l] + (seq![srv_l] + (seq![st_l]
        + (seq![usn_l] + pair_lines(extras))))));
    lemma_lines_block_cons(ext_l, seq![loc_l] + (seq![srv_l] + (seq![st_l] + (seq![usn_l]
        + pair_lines(extras)))));
    lemma_lines_block_cons(loc_l, seq![srv_l] + (seq![st_l] + (seq![usn_l] + pair_lines(extras))));
    lemma_lines_block_cons(srv_l, seq![st_l] + (seq![usn_l] + pair_lines(extras)));
    lemma_lines_block_cons(st_l, seq![usn_l] + pair_lines(extras));
    lemma_lines_block_cons(usn_l, pair_lines(extras));

    assert(b =~= status_b + seq![CR, LF] + lines_block(lines) + seq![CR, LF]);

    // The status line parses as a request line: its first space sits after
    // `HTTP/1.1`, its second after `200`, and both tokens are non-empty.
    let e0 = status_b.len() as int;
    assert(e0 == 15);
    assert(forall|j: int| 0 <= j < 15 ==> status_b[j] == ("HTTP/1.1 200 OK"@)[j] as u8);
    assert(forall|j: int| 0 <= j < e0 ==> b[j] == status_b[j]);
    assert(forall|j: int| 0 <= j < e0 ==> b[j] != CR);
    assert(b[e0] == CR && b[e0 + 1] == LF);
    lemma_find_line_end_at(b, 0, e0);
    assert(find_line_end(b, 0) == Some(e0));
    assert(b[8] == 32);
    assert(forall|j: int| 0 <= j < 8 ==> b[j] != 32);
    lemma_find_byte_at(b, 0, e0, 32, 8);
    assert(b[12] == 32);
    assert(forall|j: int| 9 <= j < 12 ==> b[j] != 32);
    lemma_find_byte_at(b, 9, e0, 32, 12);
    assert(spec_request_line_at(b, 0, e0) is Some);

    // Every header line is well formed.
    assert(header_line_ok(cache_l)) by {
        assert(cache_l[13] == 58);
        assert(forall|j: int| 0 <= j < 13 ==> cache_l[j] == ("CACHE-CONTROL"@)[j] as u8);
        assert(forall|j: int| 0 <= j < cache_l.len() ==> cache_l[j] != CR && cache_l[j] != LF);
    }
    assert(header_line_ok(date_l)) by {
        assert(date_l[4] == 58);
        assert(forall|j: int| 0 <= j < date_l.len() ==> date_l[j] != CR && date_l[j] != LF);
    }
    assert(header_line_ok(ext_l)) by {
        assert(ext_l[3] == 58);
        assert(ext_l[0] == 'E' as u8);
        assert(forall|j: int| 0 <= j < ext_l.len() ==> ext_l[j] != CR && ext_l[j] != LF);
    }
    assert(header_line_ok(loc_l)) by {
        assert(loc_l[8] == 58);
        assert(forall|j: int| 0 <= j < loc_l.len() ==> loc_l[j] != CR && loc_l[j] != LF);
    }
    assert(header_line_ok(srv_l)) by {
        assert(srv_l[6] == 58);
        assert(forall|j: int| 0 <= j < srv_l.len() ==> srv_l[j] != CR && srv_l[j] != LF);
    }
    assert(header_line_ok(st_l)) by {
        assert(st_l[2] == 58);
        assert(forall|j: int| 0 <= j < st_l.len() ==> st_l[j] != CR && st_l[j] != LF);
    }
    assert(header_line_ok(usn_l)) by {
        assert(usn_l[3] == 58);
        assert(forall|j: int| 0 <= j < usn_l.len() ==> usn_l[j] != CR && usn_l[j] != LF);
    }
    assert(forall|k: int| 0 <= k < pair_lines(extras).len() ==> header_line_ok(
        #[trigger] pair_lines(extras)[k],
    )) by {
        assert forall|k: int| 0 <= k < pair_lines(extras).len() implies header_line_ok(
            pair_lines(extras)[k],
        ) by {
            let p = extras[k];
            let l = pair_line(p);
            assert(pair_lines(extras)[k] == l);
            assert(l[bytes_of(p.0).len() as int] == 58);
            assert(l[0] == p.0[0] as u8);
            assert(l[0] != 58);
            assert(forall|j: int| 0 <= j < l.len() ==> l[j] != CR && l[j] != LF);
        }
    }
    assert(forall|k: int| 0 <= k < lines.len() ==> header_line_ok(#[trigger] lines[k]));

    // Hand the header block to the parser.
    assert(b.subrange(e0 + 2, b.len() as int) =~= lines_block(lines) + seq![CR, LF]);
    lemma_parse_headers_block(b, e0 + 2, lines);
    assert(spec_parse(b) is Complete);
}

proof fn lemma_find_byte_at(b: Seq<u8>, i: int, e: int, x: u8, c: int)
    requires
        0 <= i <= c < e,
        b[c] == x,
        forall|j: int| i <= j < c ==> b[j] != x,
    ensures
        find_byte_from(b, i, e, x) == Some(c),
    decreases c - i,
{
    if i < c {
        lemma_find_byte_at(b, i + 1, e, x, c);
    }
}

} // verus!
