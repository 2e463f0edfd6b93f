//! Rule-configuration parsing and registry construction.
//!
//! A configuration line reads `extension: program arg ...`, with an optional
//! trailing `#` comment.  The extension is the colon's left side, trimmed;
//! the invocation is the whitespace-split tokens between the colon and the
//! comment.  A registry built from parsed lines is sorted longest extension
//! first; when no configuration exists, three built-in default rules are
//! used, in their fixed order.

use vstd::multiset::Multiset;
use vstd::prelude::*;

use crate::chars::find_char_from;
use crate::chars::find_char_in;
use crate::chars::find_non_space_back;
use crate::chars::find_non_space_back_in;
use crate::chars::find_non_space_from;
use crate::chars::find_non_space_in;
use crate::chars::find_space_from;
use crate::chars::find_space_in;
use crate::chars::is_space;
use crate::chars::is_space_char;
use crate::chars::lemma_find_non_space_back_spec;
use crate::chars::lemma_find_non_space_from_spec;
use crate::chars::lemma_find_space_from_spec;
use crate::chars::split_ws_range;
use crate::chars::token_end;
use crate::chars::trim_range;
use crate::errors::BadLine;
use crate::executor::registry_wf;
use crate::unpack_format::sorted_by_extension_desc;
use crate::unpack_format::wf_format;
use crate::unpack_format::UnpackFormat;

verus! {

broadcast use vstd::seq_lib::group_to_multiset_ensures;

/// What parsing one configuration line means: the position of the first
/// colon splits the line; the left side, trimmed, is the extension and must
/// not be blank; the first non-whitespace character after the colon starts
/// the invocation, which runs to the first `#` from there (or the line's
/// end) and must hold at least one token.
pub open spec fn parse_spec(line: Seq<char>) -> Result<(Seq<char>, Seq<Seq<char>>), BadLine> {
    let n = line.len() as int;
    match find_char_from(line, 0, n, ':') {
        None => Err(BadLine::NoColon),
        Some(p) => {
            if trim_range(line, 0, p).len() == 0 {
                Err(BadLine::EmptyExtension)
            } else {
                match find_non_space_from(line, p + 1, n) {
                    None => Err(BadLine::EmptyInvocation),
                    Some(q) => {
                        let stop = match find_char_from(line, q, n, '#') {
                            Some(h) => h,
                            None => n,
                        };
                        if q == stop {
                            Err(BadLine::EmptyInvocation)
                        } else {
                            Ok((trim_range(line, 0, p), split_ws_range(line, q, stop)))
                        }
                    },
                }
            }
        },
    }
}

/// Parse one configuration line into a rule.
pub fn parse_format_line(line: &str) -> (r: Result<UnpackFormat, BadLine>)
    ensures
        match r {
            Ok(f) => {
                &&& (parse_spec(line@) matches Ok(pair) && f.extension@ == pair.0
                    && f.invocation.deep_view() == pair.1)
                &&& wf_format(f)
            },
            Err(e) => parse_spec(line@) == Err::<(Seq<char>, Seq<Seq<char>>), BadLine>(e),
        },
{
    let n = line.unicode_len();
    let p = match find_char_in(line, 0, n, ':') {
        Some(p) => p,
        None => {
            return Err(BadLine::NoColon);
        },
    };
    proof {
        crate::chars::lemma_find_char_from_spec(line@, 0, n as int, ':');
    }
    let ext_start = match find_non_space_in(line, 0, p) {
        Some(a) => a,
        None => {
            return Err(BadLine::EmptyExtension);
        },
    };
    proof {
        lemma_find_non_space_from_spec(line@, 0, p as int);
        lemma_find_non_space_back_spec(line@, 0, p as int - 1);
    }
    let ext_end = match find_non_space_back_in(line, 0, p) {
        Some(b) => b,
        None => {
            proof {
                assert(false);
            }
            return Err(BadLine::EmptyExtension);
        },
    };
    let ghost ext_chars = trim_range(line@, 0, p as int);
    proof {
        assert(ext_start <= ext_end < p);
        assert(ext_chars == line@.subrange(ext_start as int, ext_end + 1));
    }
    let extension = String::from_str(line.substring_char(ext_start, ext_end + 1));
    let q = match find_non_space_in(line, p + 1, n) {
        Some(q) => q,
        None => {
            return Err(BadLine::EmptyInvocation);
        },
    };
    proof {
        lemma_find_non_space_from_spec(line@, p as int + 1, n as int);
    }
    let stop = match find_char_in(line, q, n, '#') {
        Some(h) => h,
        None => n,
    };
    if q == stop {
        return Err(BadLine::EmptyInvocation);
    }
    proof {
        crate::chars::lemma_find_char_from_spec(line@, q as int, n as int, '#');
        lemma_find_non_space_from_spec(line@, p as int + 1, n as int);
        assert(q < stop <= n);
        assert(!is_space(line@[q as int]));
    }
    let mut invocation: Vec<String> = Vec::new();
    let mut i = q;
    while i < stop
        invariant
            q <= i <= stop <= n == line@.len(),
            invocation.deep_view() + split_ws_range(line@, i as int, stop as int)
                =~= split_ws_range(line@, q as int, stop as int),
        decreases stop - i,
    {
        if is_space_char(line.get_char(i)) {
            i = i + 1;
        } else {
            let e = match find_space_in(line, i, stop) {
                Some(e) => e,
                None => stop,
            };
            proof {
                lemma_find_space_from_spec(line@, i as int, stop as int);
                assert(i < e <= stop);
                assert(token_end(line@, i as int, stop as int) == e as int);
            }
            let tok = String::from_str(line.substring_char(i, e));
            let ghost pre_v = invocation@;
            let ghost pre_d = invocation.deep_view();
            invocation.push(tok);
            proof {
                assert forall|k: int| 0 <= k < invocation@.len() implies invocation.deep_view()[k]
                    == pre_d.push(tok@)[k] by {
                    assert(invocation.deep_view()[k] == invocation@[k].deep_view());
                    if k < pre_v.len() {
                        assert(invocation@[k] == pre_v[k]);
                        assert(pre_d[k] == pre_v[k].deep_view());
                    } else {
                        assert(invocation@[k] == tok);
                    }
                }
                assert(invocation.deep_view() =~= pre_d.push(tok@));
                assert(split_ws_range(line@, i as int, stop as int) == seq![
                    line@.subrange(i as int, e as int),
                ] + split_ws_range(line@, e as int, stop as int));
                assert(invocation.deep_view() + split_ws_range(line@, e as int, stop as int)
                    =~= split_ws_range(line@, q as int, stop as int));
            }
            i = e;
        }
    }
    proof {
        assert(split_ws_range(line@, stop as int, stop as int) =~= Seq::<Seq<char>>::empty());
        assert(invocation.deep_view() =~= split_ws_range(line@, q as int, stop as int));
        assert(split_ws_range(line@, q as int, stop as int).len() >= 1);
        assert(invocation@.len() == invocation.deep_view().len());
    }
    Ok(UnpackFormat { extension, invocation })
}

/// The built-in default rules, used when no configuration file exists:
/// `.zip` via `unzip`, `.tar.gz` via `tar xfz`, `.tar` via `tar xf`, in that
/// order.
pub fn defaults() -> (r: Vec<UnpackFormat>)
    ensures
        r@.len() == 3,
        registry_wf(r@),
        r@[0].extension@ == ".zip"@,
        r@[0].invocation.deep_view() == seq!["unzip"@],
        r@[1].extension@ == ".tar.gz"@,
        r@[1].invocation.deep_view() == seq!["tar"@, "xfz"@],
        r@[2].extension@ == ".tar"@,
        r@[2].invocation.deep_view() == seq!["tar"@, "xf"@],
{
    let mut inv0: Vec<String> = Vec::new();
    inv0.push(String::from_str("unzip"));
    let f0 = UnpackFormat { extension: String::from_str(".zip"), invocation: inv0 };
    let mut inv1: Vec<String> = Vec::new();
    inv1.push(String::from_str("tar"));
    inv1.push(String::from_str("xfz"));
    let f1 = UnpackFormat { extension: String::from_str(".tar.gz"), invocation: inv1 };
    let mut inv2: Vec<String> = Vec::new();
    inv2.push(String::from_str("tar"));
    inv2.push(String::from_str("xf"));
    let f2 = UnpackFormat { extension: String::from_str(".tar"), invocation: inv2 };
    proof {
        assert(f0.invocation.deep_view() =~= seq!["unzip"@]);
        assert(f1.invocation.deep_view() =~= seq!["tar"@, "xfz"@]);
        assert(f2.invocation.deep_view() =~= seq!["tar"@, "xf"@]);
        reveal_strlit(".zip");
        reveal_strlit(".tar.gz");
        reveal_strlit(".tar");
        reveal_strlit("unzip");
        reveal_strlit("tar");
    }
    let mut r: Vec<UnpackFormat> = Vec::new();
    r.push(f0);
    r.push(f1);
    r.push(f2);
    r
}

/// Sort a registry longest extension first.  The result is a permutation of
/// the input.
pub fn sort_formats(formats: Vec<UnpackFormat>) -> (r: Vec<UnpackFormat>)
    ensures
        r@.to_multiset() == formats@.to_multiset(),
        sorted_by_extension_desc(r@),
{
    let mut input = formats;
    let mut out: Vec<UnpackFormat> = Vec::new();
    while input.len() > 0
        invariant
            out@.to_multiset().add(input@.to_multiset()) == formats@.to_multiset(),
            sorted_by_extension_desc(out@),
        decreases input@.len(),
    {
        let ghost pre_in = input@;
        let ghost pre_out = out@;
        let x = input.remove(0);
        let xlen = x.extension.as_str().unicode_len();
        let mut j: usize = 0;
        while j < out.len() && out[j].extension.as_str().unicode_len() >= xlen
            invariant
                0 <= j <= out@.len(),
                xlen == x.extension@.len(),
                forall|k: int|
                    0 <= k < j ==> (#[trigger] out@[k]).extension@.len() >= xlen,
            decreases out@.len() - j,
        {
            j = j + 1;
        }
        proof {
            assert(j < out@.len() ==> out@[j as int].extension@.len() < xlen);
        }
        let ghost mid_out = out@;
        out.insert(j, x);
        proof {
            assert(out@ == mid_out.insert(j as int, x));
            assert forall|a: int, b: int| 0 <= a < b < out@.len() implies (#[trigger] out@[
                a
            ]).extension@.len() >= (#[trigger] out@[b]).extension@.len() by {
                if a < j && b == j {
                } else if a == j && b > j {
                    assert(out@[b] == mid_out[b - 1]);
                    if j < mid_out.len() {
                        assert(mid_out[j as int].extension@.len() < xlen);
                    }
                } else if a < j && b > j {
                    assert(out@[a] == mid_out[a]);
                    assert(out@[b] == mid_out[b - 1]);
                } else if a > j && b > j {
                    assert(out@[a] == mid_out[a - 1]);
                    assert(out@[b] == mid_out[b - 1]);
                } else {
                    assert(out@[a] == mid_out[a]);
                    assert(out@[b] == mid_out[b]);
                }
            }
            assert(out@.to_multiset() == mid_out.to_multiset().insert(x));
            assert(input@.to_multiset() == pre_in.to_multiset().remove(pre_in[0]));
            assert(x == pre_in[0]);
            assert(out@.to_multiset().add(input@.to_multiset()) =~= formats@.to_multiset());
        }
    }
    proof {
        assert(input@.to_multiset() =~= Multiset::<UnpackFormat>::empty());
        assert(out@.to_multiset() =~= formats@.to_multiset());
    }
    out
}

/// The position of the first line that does not parse, if any.
pub open spec fn first_bad_line(lines: Seq<Seq<char>>) -> Option<int>
    decreases lines.len(),
{
    if lines.len() == 0 {
        None
    } else if parse_spec(lines[0]) is Err {
        Some(0)
    } else {
        match first_bad_line(lines.drop_first()) {
            Some(i) => Some(i + 1),
            None => None,
        }
    }
}

/// Characterization of [`first_bad_line`]: a found position is the first
/// whose line fails to parse; otherwise every line parses.
pub proof fn lemma_first_bad_line_spec(lines: Seq<Seq<char>>)
    ensures
        match first_bad_line(lines) {
            Some(i) => {
                &&& 0 <= i < lines.len()
                &&& parse_spec(lines[i]) is Err
                &&& forall|k: int| 0 <= k < i ==> parse_spec(lines[k]) is Ok
            },
            None => forall|k: int| 0 <= k < lines.len() ==> parse_spec(lines[k]) is Ok,
        },
    decreases lines.len(),
{
    if lines.len() > 0 && parse_spec(lines[0]) is Ok {
        let rest = lines.drop_first();
        lemma_first_bad_line_spec(rest);
        assert(forall|k: int| 0 <= k < rest.len() ==> rest[k] == lines[k + 1]);
        match first_bad_line(rest) {
            Some(i) => {
                assert forall|k: int| 0 <= k < i + 1 implies parse_spec(lines[k]) is Ok by {
                    if k > 0 {
                        assert(lines[k] == rest[k - 1]);
                    }
                }
            },
            None => {
                assert forall|k: int| 0 <= k < lines.len() implies parse_spec(
                    lines[k],
                ) is Ok by {
                    if k > 0 {
                        assert(lines[k] == rest[k - 1]);
                    }
                }
            },
        }
    }
}

/// Whether `u` is, rule for rule, what the lines parse to: the same length,
/// and each rule's extension and invocation are exactly its line's parse.
pub open spec fn parses_to(lines: Seq<Seq<char>>, u: Seq<UnpackFormat>) -> bool {
    &&& u.len() == lines.len()
    &&& (forall|k: int|
        0 <= k < u.len() ==> parse_spec(lines[k]) == Ok::<_, BadLine>((
            (#[trigger] u[k]).extension@,
            u[k].invocation.deep_view(),
        )))
}

/// Build a registry from the lines of a configuration file: every line must
/// parse, and the parsed rules are sorted longest extension first.  On the
/// first line that does not parse, that line and the defect are returned and
/// nothing is built.
pub fn load_from_lines(lines: &Vec<String>) -> (r: Result<Vec<UnpackFormat>, (String, BadLine)>)
    ensures
        match r {
            Ok(v) => {
                &&& first_bad_line(lines.deep_view()) is None
                &&& sorted_by_extension_desc(v@)
                &&& registry_wf(v@)
                &&& (exists|u: Seq<UnpackFormat>|
                    #[trigger] parses_to(lines.deep_view(), u) && u.to_multiset()
                        == v@.to_multiset())
            },
            Err(bad) => {
                &&& first_bad_line(lines.deep_view()) matches Some(i)
                &&& bad.0@ == lines.deep_view()[first_bad_line(lines.deep_view())->0]
                &&& parse_spec(bad.0@) == Err::<(Seq<char>, Seq<Seq<char>>), BadLine>(bad.1)
            },
        },
{
    let mut parsed: Vec<UnpackFormat> = Vec::new();
    let n = lines.len();
    let mut i: usize = 0;
    while i < n
        invariant
            n == lines@.len(),
            0 <= i <= n,
            parsed@.len() == i,
            forall|k: int| 0 <= k < i ==> parse_spec(lines.deep_view()[k]) is Ok,
            forall|k: int|
                0 <= k < i ==> parse_spec(lines.deep_view()[k]) == Ok::<_, BadLine>((
                    (#[trigger] parsed@[k]).extension@,
                    parsed@[k].invocation.deep_view(),
                )),
            forall|k: int| 0 <= k < i ==> wf_format(#[trigger] parsed@[k]),
        decreases n - i,
    {
        proof {
            assert(lines.deep_view()[i as int] == lines@[i as int]@);
        }
        match parse_format_line(lines[i].as_str()) {
            Ok(f) => {
                parsed.push(f);
            },
            Err(b) => {
                proof {
                    lemma_first_bad_line_spec(lines.deep_view());
                    match first_bad_line(lines.deep_view()) {
                        Some(fb) => {
                            assert(!(fb < i as int) && !((i as int) < fb));
                        },
                        None => {
                            assert(parse_spec(lines.deep_view()[i as int]) is Ok);
                        },
                    }
                }
                return Err((lines[i].clone(), b));
            },
        }
        i = i + 1;
    }
    proof {
        lemma_first_bad_line_spec(lines.deep_view());
        if first_bad_line(lines.deep_view()) is Some {
            let fb = first_bad_line(lines.deep_view())->0;
            assert(parse_spec(lines.deep_view()[fb]) is Ok);
        }
    }
    let ghost u = parsed@;
    proof {
        assert(parses_to(lines.deep_view(), u));
    }
    let sorted = sort_formats(parsed);
    proof {
        assert forall|k: int| 0 <= k < sorted@.len() implies wf_format(
            #[trigger] sorted@[k],
        ) by {
            assert(sorted@.to_multiset().count(sorted@[k]) > 0);
            assert(u.to_multiset().count(sorted@[k]) > 0);
            assert(u.contains(sorted@[k]));
            let j = choose|j: int| 0 <= j < u.len() && u[j] == sorted@[k];
            assert(wf_format(u[j]));
        }
    }
    Ok(sorted)
}

} // verus!
