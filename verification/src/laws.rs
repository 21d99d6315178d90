//! Proved properties of the format translator: counter and info sample
//! lines of the strict format lose their mandatory suffixes, info type
//! declarations are reported as gauges, and a translator configured to
//! drop the terminator never emits an `# EOF` line.

use vstd::prelude::*;

use crate::format::{
    spec_find_name_end,
    spec_find_ws,
    spec_is_ws,
    spec_line_result,
    Format,
    MetricKind,
    TransState,
    TypeDefModel,
};
use crate::encoding::LabelPair;
use crate::render::{
    spec_all_series_lines,
    spec_encode_document,
    spec_render_document,
    spec_render_entries,
    spec_render_entry,
    spec_series_lines,
    RenderEntry,
};

verus! {

/// Whether a character ends the metric name of a sample line.
pub open spec fn spec_is_name_end(c: char) -> bool {
    c == '{' || spec_is_ws(c)
}

proof fn lemma_find_name_end_first(line: Seq<char>, p: int, i: int)
    requires
        0 <= i <= p < line.len(),
        spec_is_name_end(line[p]),
        forall|k: int| 0 <= k < p ==> !spec_is_name_end(#[trigger] line[k]),
    ensures
        spec_find_name_end(line, i) == Some(p),
    decreases p - i,
{
    if i < p {
        lemma_find_name_end_first(line, p, i + 1);
    }
}

proof fn lemma_find_ws_first(s: Seq<char>, p: int, i: int)
    requires
        0 <= i <= p < s.len(),
        spec_is_ws(s[p]),
        forall|k: int| 0 <= k < p ==> !spec_is_ws(#[trigger] s[k]),
    ensures
        spec_find_ws(s, i) == Some(p),
    decreases p - i,
{
    if i < p {
        lemma_find_ws_first(s, p, i + 1);
    }
}

/// A sample line of a counter, written with the mandatory `_total`
/// suffix of the strict format, is reported under the bare metric name:
/// the translator appends exactly the line with the suffix stripped.
pub proof fn lemma_counter_sample_line_loses_suffix(
    st: TransState,
    name: Seq<char>,
    rest: Seq<char>,
)
    requires
        st.last_def == Some(TypeDefModel { name: name, kind: MetricKind::Counter }),
        name.len() > 0,
        name[0] != '#',
        forall|k: int|
            0 <= k < (name + "_total"@).len() ==> !spec_is_name_end(
                #[trigger] (name + "_total"@)[k],
            ),
        rest.len() > 0,
        spec_is_name_end(rest[0]),
    ensures
        spec_line_result(st, name + "_total"@ + rest) == Some(
            TransState {
                out: st.out + name + rest + seq!['\n'],
                pending: Seq::<char>::empty(),
                ..st
            },
        ),
{
    let line = name + "_total"@ + rest;
    let full = name + "_total"@;
    reveal_strlit("_total");
    assert(full[0] == name[0]);
    assert(line =~= full + rest);
    proof_sample_line_strips(st, name, full, rest, line);
}

/// A sample line of an info metric, written with the mandatory `_info`
/// suffix of the strict format, is reported under the bare metric name.
pub proof fn lemma_info_sample_line_loses_suffix(
    st: TransState,
    name: Seq<char>,
    rest: Seq<char>,
)
    requires
        st.last_def == Some(TypeDefModel { name: name, kind: MetricKind::Info }),
        name.len() > 0,
        name[0] != '#',
        forall|k: int|
            0 <= k < (name + "_info"@).len() ==> !spec_is_name_end(
                #[trigger] (name + "_info"@)[k],
            ),
        rest.len() > 0,
        spec_is_name_end(rest[0]),
    ensures
        spec_line_result(st, name + "_info"@ + rest) == Some(
            TransState {
                out: st.out + name + rest + seq!['\n'],
                pending: Seq::<char>::empty(),
                ..st
            },
        ),
{
    let line = name + "_info"@ + rest;
    let full = name + "_info"@;
    reveal_strlit("_info");
    assert(full[0] == name[0]);
    assert(line =~= full + rest);
    proof_sample_line_strips(st, name, full, rest, line);
}

/// Common argument for the two suffix-stripping laws: `full` is the
/// suffixed name actually written in the line.
proof fn proof_sample_line_strips(
    st: TransState,
    name: Seq<char>,
    full: Seq<char>,
    rest: Seq<char>,
    line: Seq<char>,
)
    requires
        line == full + rest,
        full.len() > name.len(),
        full[0] == name[0],
        name.len() > 0,
        name[0] != '#',
        (st.last_def == Some(TypeDefModel { name: name, kind: MetricKind::Counter }) && full
            == name + "_total"@) || (st.last_def == Some(
            TypeDefModel { name: name, kind: MetricKind::Info },
        ) && full == name + "_info"@),
        forall|k: int| 0 <= k < full.len() ==> !spec_is_name_end(#[trigger] full[k]),
        rest.len() > 0,
        spec_is_name_end(rest[0]),
    ensures
        spec_line_result(st, line) == Some(
            TransState {
                out: st.out + name + rest + seq!['\n'],
                pending: Seq::<char>::empty(),
                ..st
            },
        ),
{
    reveal_strlit("# EOF");
    reveal_strlit("# TYPE ");
    reveal_strlit("#");
    assert(line.len() > 0 && line[0] == name[0]);
    assert(line != "# EOF"@) by {
        assert("# EOF"@[0] == '#');
    }
    assert(!crate::format::spec_starts_with(line, "#"@)) by {
        if crate::format::spec_starts_with(line, "#"@) {
            assert(line.take(1)[0] == line[0]);
        }
    }
    assert(!crate::format::spec_starts_with(line, "# TYPE "@)) by {
        if crate::format::spec_starts_with(line, "# TYPE "@) {
            assert(line.take(7)[0] == line[0]);
        }
    }
    assert(spec_is_name_end(line[full.len() as int]));
    assert(forall|k: int| 0 <= k < full.len() ==> !spec_is_name_end(#[trigger] line[k]));
    lemma_find_name_end_first(line, full.len() as int, 0);
    assert(line.take(full.len() as int) =~= full);
    assert(line.skip(full.len() as int) =~= rest);
    assert(spec_line_result(st, line) matches Some(st2) && st2.out == st.out + (name + rest)
        + seq!['\n']);
    assert(spec_line_result(st, line).unwrap() =~~= (TransState {
        out: st.out + name + rest + seq!['\n'],
        pending: Seq::<char>::empty(),
        ..st
    }));
}

/// A `# TYPE` declaration for an info metric is rewritten so that its
/// declared kind reads `gauge`, when the translator is configured for a
/// dialect without the info kind.
pub proof fn lemma_info_type_line_reports_gauge(st: TransState, name: Seq<char>)
    requires
        st.translate_info,
        name.len() > 0,
        forall|k: int| 0 <= k < name.len() ==> !spec_is_ws(#[trigger] name[k]),
    ensures
        spec_line_result(st, "# TYPE "@ + name + " info"@) == Some(
            TransState {
                out: st.out + "# TYPE "@ + name + " gauge"@ + seq!['\n'],
                last_def: Some(TypeDefModel { name: name, kind: MetricKind::Info }),
                pending: Seq::<char>::empty(),
                ..st
            },
        ),
{
    reveal_strlit("# EOF");
    reveal_strlit("# TYPE ");
    reveal_strlit(" info");
    reveal_strlit("info");
    reveal_strlit("counter");
    reveal_strlit("gauge");
    reveal_strlit("histogram");
    let line = "# TYPE "@ + name + " info"@;
    assert(line != "# EOF"@) by {
        assert(line.len() >= 12);
        assert("# EOF"@.len() == 5);
    }
    assert(crate::format::spec_starts_with(line, "# TYPE "@)) by {
        assert(line.take(7) =~= "# TYPE "@);
    }
    let restpart = line.skip(7);
    assert(restpart =~= name + " info"@);
    assert(crate::format::spec_trim_ws(restpart) == restpart) by {
        assert(restpart[0] == name[0]);
        assert(!spec_is_ws(restpart[0]));
        assert(crate::format::spec_trim_start(restpart) == restpart);
        assert(restpart.last() == 'o');
        assert(!spec_is_ws(restpart.last()));
        assert(crate::format::spec_trim_end(restpart) == restpart);
    }
    assert(spec_is_ws(restpart[name.len() as int])) by {
        assert(" info"@[0] == ' ');
    }
    assert(forall|k: int| 0 <= k < name.len() ==> !spec_is_ws(#[trigger] restpart[k]));
    lemma_find_ws_first(restpart, name.len() as int, 0);
    assert(restpart.take(name.len() as int) =~= name);
    assert(restpart.skip(name.len() as int + 1) =~= "info"@);
    assert(crate::format::spec_kind_of_token("info"@) == MetricKind::Info) by {
        assert("info"@.len() == 4 && "counter"@.len() == 7 && "gauge"@.len() == 5
            && "histogram"@.len() == 9);
    }
    assert(spec_line_result(st, line).unwrap() =~~= (TransState {
        out: st.out + "# TYPE "@ + name + " gauge"@ + seq!['\n'],
        last_def: Some(TypeDefModel { name: name, kind: MetricKind::Info }),
        pending: Seq::<char>::empty(),
        ..st
    }));
}

/// Whether `after` extends `before` by exactly one complete line other
/// than `# EOF`.
pub open spec fn spec_appends_non_eof_line(before: Seq<char>, after: Seq<char>) -> bool {
    exists|l: Seq<char>|
        after == #[trigger] (before + l) + seq!['\n'] && l != "# EOF"@ && !l.contains('\n')
}

/// The translator never writes an `# EOF` line of its own: every
/// processed line either leaves the output unchanged or appends one
/// complete line that differs from `# EOF` - provided the input line
/// itself is not the terminator, or the translator is configured to drop
/// terminators.
pub proof fn lemma_legacy_never_emits_eof(st: TransState, line: Seq<char>)
    requires
        st.remove_eof || line != "# EOF"@,
        !line.contains('\n'),
    ensures
        match spec_line_result(st, line) {
            Some(st2) => (st2.out == st.out || spec_appends_non_eof_line(st.out, st2.out))
                && st2.pending == Seq::<char>::empty() && st2.remove_eof == st.remove_eof
                && st2.translate_info == st.translate_info,
            None => true,
        },
{
    reveal_strlit("# EOF");
    reveal_strlit("# TYPE ");
    reveal_strlit(" gauge");
    reveal_strlit("#");
    assert forall|idx: int| 0 <= idx < line.len() implies #[trigger] line[idx] != '\n' by {
        if line[idx] == '\n' {
            assert(line.contains('\n'));
        }
    }
    if st.remove_eof && line == "# EOF"@ {
    } else if crate::format::spec_starts_with(line, "# TYPE "@) {
        match crate::format::spec_parse_type_def(line.skip(7)) {
            None => {},
            Some(def) => {
                if st.translate_info && def.kind == MetricKind::Info {
                    let out_line = "# TYPE "@ + def.name + " gauge"@;
                    let trimmed = crate::format::spec_trim_ws(line.skip(7));
                    let j = spec_find_ws(trimmed, 0).unwrap();
                    lemma_find_ws_in_range(trimmed, 0, j);
                    assert(def.name == trimmed.take(j));
                    assert(forall|k: int|
                        0 <= k < line.skip(7).len() ==> #[trigger] line.skip(7)[k] != '\n');
                    lemma_trim_keeps_no_newline(line.skip(7));
                    assert(out_line != "# EOF"@) by {
                        assert("# EOF"@.len() == 5);
                        assert(out_line.len() >= 13);
                    }
                    assert forall|k: int|
                        0 <= k < out_line.len() implies #[trigger] out_line[k] != '\n' by {
                        if k < 7 {
                            assert(out_line[k] == "# TYPE "@[k]);
                        } else if k < 7 + def.name.len() {
                            assert(out_line[k] == def.name[k - 7]);
                            assert(def.name[k - 7] == trimmed[k - 7]);
                        } else {
                            assert(out_line[k] == " gauge"@[k - 7 - def.name.len()]);
                        }
                    }
                    assert(!out_line.contains('\n')) by {
                        if out_line.contains('\n') {
                            let w = choose|w: int|
                                0 <= w < out_line.len() && out_line[w] == '\n';
                            assert(out_line[w] != '\n');
                        }
                    }
                    witness_line(st.out, out_line);
                } else {
                    assert(line != "# EOF"@) by {
                        assert("# EOF"@.len() == 5);
                        assert(line.len() >= 7);
                    }
                    witness_line(st.out, line);
                }
            },
        }
    } else if !crate::format::spec_starts_with(line, "#"@) {
        match spec_find_name_end(line, 0) {
            None => {},
            Some(p) => {
                lemma_name_end_in_range(line, 0, p);
                let name = line.take(p);
                let rest = line.skip(p);
                assert(line.len() > 0);
                assert(line[0] != '#') by {
                    if line[0] == '#' {
                        assert(line.take(1) =~= "#"@);
                    }
                }
                assert(line != "# EOF"@) by {
                    assert("# EOF"@[0] == '#');
                }
                match st.last_def {
                    Some(def) => {
                        if def.kind == MetricKind::Counter && name == def.name + "_total"@ {
                            reveal_strlit("_total");
                            assert(name.len() == p);
                            assert(def.name.len() + 6 == p);
                            if def.name.len() > 0 {
                                assert(def.name[0] == name[0]);
                                assert(name[0] == line[0]);
                            }
                            stripped_not_eof(line, def.name, rest, p);
                            stripped_no_newline(line, def.name, name, rest, p);
                            witness_line(st.out, def.name + rest);
                        } else if def.kind == MetricKind::Info && name == def.name + "_info"@ {
                            reveal_strlit("_info");
                            assert(name.len() == p);
                            assert(def.name.len() + 5 == p);
                            if def.name.len() > 0 {
                                assert(def.name[0] == name[0]);
                                assert(name[0] == line[0]);
                            }
                            stripped_not_eof(line, def.name, rest, p);
                            stripped_no_newline(line, def.name, name, rest, p);
                            witness_line(st.out, def.name + rest);
                        } else {
                            witness_line(st.out, line);
                        }
                    },
                    None => {
                        witness_line(st.out, line);
                    },
                }
            },
        }
    } else {
        assert(line != "# EOF"@);
        witness_line(st.out, line);
    }
}

/// The found name end lies within the line.
proof fn lemma_name_end_in_range(line: Seq<char>, i: int, p: int)
    requires
        0 <= i,
        spec_find_name_end(line, i) == Some(p),
    ensures
        i <= p < line.len(),
        spec_is_name_end(line[p]),
        forall|k: int| i <= k < p ==> !spec_is_name_end(#[trigger] line[k]),
    decreases line.len() - i,
{
    if i >= line.len() {
    } else if spec_is_name_end(line[i]) {
    } else {
        lemma_name_end_in_range(line, i + 1, p);
    }
}

/// The found whitespace lies within the string.
proof fn lemma_find_ws_in_range(s: Seq<char>, i: int, p: int)
    requires
        0 <= i,
        spec_find_ws(s, i) == Some(p),
    ensures
        i <= p < s.len(),
    decreases s.len() - i,
{
    if i >= s.len() {
    } else if spec_is_ws(s[i]) {
    } else {
        lemma_find_ws_in_range(s, i + 1, p);
    }
}

/// The suffix-stripped sample line holds no newline when the source
/// line holds none.
proof fn stripped_no_newline(
    line: Seq<char>,
    base: Seq<char>,
    name: Seq<char>,
    rest: Seq<char>,
    p: int,
)
    requires
        0 <= p < line.len(),
        name == line.take(p),
        rest == line.skip(p),
        base.len() <= name.len(),
        forall|k: int| 0 <= k < base.len() ==> #[trigger] base[k] == name[k],
        forall|idx: int| 0 <= idx < line.len() ==> #[trigger] line[idx] != '\n',
    ensures
        !(base + rest).contains('\n'),
{
    let s = base + rest;
    assert forall|k: int| 0 <= k < s.len() implies #[trigger] s[k] != '\n' by {
        if k < base.len() {
            assert(s[k] == base[k]);
            assert(base[k] == name[k]);
            assert(name[k] == line[k]);
        } else {
            assert(s[k] == rest[k - base.len()]);
            assert(rest[k - base.len()] == line[p + k - base.len()]);
        }
    }
    if s.contains('\n') {
        let w = choose|w: int| 0 <= w < s.len() && s[w] == '\n';
        assert(s[w] != '\n');
    }
}

/// The suffix-stripped sample line differs from `# EOF`.
proof fn stripped_not_eof(line: Seq<char>, base: Seq<char>, rest: Seq<char>, p: int)
    requires
        0 <= p < line.len(),
        rest == line.skip(p),
        line.len() > 0,
        line[0] != '#',
        spec_is_name_end(line[p]),
        base.len() <= p,
        base.len() > 0 ==> base[0] == line[0],
    ensures
        base + rest != "# EOF"@,
{
    reveal_strlit("# EOF");
    let s = base + rest;
    assert(s.len() > 0);
    if base.len() > 0 {
        assert(s[0] == line[0]);
    } else {
        assert(s[0] == rest[0]);
        assert(rest[0] == line[p]);
        assert(line[p] != '#');
    }
    assert("# EOF"@[0] == '#');
}

/// Provides the witness for [`spec_appends_non_eof_line`].
proof fn witness_line(before: Seq<char>, l: Seq<char>)
    requires
        l != "# EOF"@,
        !l.contains('\n'),
    ensures
        spec_appends_non_eof_line(before, (before + l) + seq!['\n']),
{
    assert((before + l) + seq!['\n'] == (before + l) + seq!['\n']);
}


/// Whether every complete line of `s` differs from `# EOF`: for any
/// stretch that begins at the start of a line and ends at a newline, with
/// no newline inside, the stretch is not the terminator.
pub open spec fn spec_eof_clean(s: Seq<char>) -> bool {
    forall|i: int, j: int|
        {
            &&& 0 <= i <= j < s.len()
            &&& (i == 0 || s[i - 1] == '\n')
            &&& s[j] == '\n'
            &&& (forall|k: int| i <= k < j ==> #[trigger] s[k] != '\n')
        } ==> #[trigger] s.subrange(i, j) != "# EOF"@
}

/// Appending one newline-free line other than `# EOF` to a newline-
/// terminated text keeps every line different from `# EOF`.
proof fn lemma_eof_clean_append(out: Seq<char>, l: Seq<char>)
    requires
        spec_eof_clean(out),
        out.len() > 0 ==> out.last() == '\n',
        !l.contains('\n'),
        l != "# EOF"@,
    ensures
        spec_eof_clean((out + l) + seq!['\n']),
        ((out + l) + seq!['\n']).last() == '\n',
{
    let s = (out + l) + seq!['\n'];
    assert forall|idx: int| 0 <= idx < l.len() implies #[trigger] l[idx] != '\n' by {
        if l[idx] == '\n' {
            assert(l.contains('\n'));
        }
    }
    assert forall|i: int, j: int|
        {
            &&& 0 <= i <= j < s.len()
            &&& (i == 0 || s[i - 1] == '\n')
            &&& s[j] == '\n'
            &&& (forall|k: int| i <= k < j ==> #[trigger] s[k] != '\n')
        } implies #[trigger] s.subrange(i, j) != "# EOF"@ by {
        if j < out.len() {
            assert(s.subrange(i, j) =~= out.subrange(i, j));
            assert(out.subrange(i, j) != "# EOF"@) by {
                assert forall|k: int| i <= k < j implies #[trigger] out[k] != '\n' by {
                    assert(s[k] != '\n');
                }
                if i > 0 {
                    assert(out[i - 1] == s[i - 1]);
                }
            }
        } else {
            // The only newline at or past the old text is the final one.
            assert(j == s.len() - 1) by {
                if j < s.len() - 1 {
                    assert(s[j] == l[j - out.len()]);
                }
            }
            assert(i == out.len()) by {
                if i < out.len() {
                    // The old text ends with a newline strictly inside
                    // the stretch, contradicting the no-newline condition.
                    assert(out.len() > 0);
                    assert(s[out.len() - 1] == out.last());
                    assert(s[out.len() - 1] != '\n');
                }
                if i > out.len() {
                    assert(s[i - 1] == l[i - 1 - out.len()]);
                }
            }
            assert(s.subrange(i, j) =~= l);
        }
    }
}

/// The state invariant carried through a translation that drops the
/// terminator: the output is newline-terminated, every complete line of
/// it differs from `# EOF`, and the buffered partial line holds no
/// newline.
pub open spec fn spec_eof_clean_state(st: TransState) -> bool {
    &&& st.remove_eof
    &&& spec_eof_clean(st.out)
    &&& (st.out.len() > 0 ==> st.out.last() == '\n')
    &&& !st.pending.contains('\n')
}

proof fn lemma_line_preserves_eof_clean(st: TransState, line: Seq<char>)
    requires
        spec_eof_clean_state(st),
        !line.contains('\n'),
    ensures
        match spec_line_result(st, line) {
            Some(st2) => spec_eof_clean_state(st2),
            None => true,
        },
{
    lemma_legacy_never_emits_eof(st, line);
    match spec_line_result(st, line) {
        Some(st2) => {
            if st2.out == st.out {
            } else {
                let l = choose|l: Seq<char>|
                    st2.out == #[trigger] (st.out + l) + seq!['\n'] && l != "# EOF"@
                        && !l.contains('\n');
                lemma_eof_clean_append(st.out, l);
            }
        },
        None => {},
    }
}

proof fn lemma_trim_start_keeps_no_newline(s: Seq<char>)
    requires
        forall|k: int| 0 <= k < s.len() ==> #[trigger] s[k] != '\n',
    ensures
        forall|k: int|
            0 <= k < crate::format::spec_trim_start(s).len()
                ==> #[trigger] crate::format::spec_trim_start(s)[k] != '\n',
    decreases s.len(),
{
    if s.len() > 0 && spec_is_ws(s[0]) {
        assert(forall|k: int| 0 <= k < s.skip(1).len() ==> #[trigger] s.skip(1)[k] != '\n');
        lemma_trim_start_keeps_no_newline(s.skip(1));
        assert(crate::format::spec_trim_start(s) == crate::format::spec_trim_start(s.skip(1)));
    }
}

proof fn lemma_trim_end_keeps_no_newline(s: Seq<char>)
    requires
        forall|k: int| 0 <= k < s.len() ==> #[trigger] s[k] != '\n',
    ensures
        forall|k: int|
            0 <= k < crate::format::spec_trim_end(s).len()
                ==> #[trigger] crate::format::spec_trim_end(s)[k] != '\n',
    decreases s.len(),
{
    if s.len() > 0 && spec_is_ws(s.last()) {
        assert(forall|k: int|
            0 <= k < s.drop_last().len() ==> #[trigger] s.drop_last()[k] != '\n');
        lemma_trim_end_keeps_no_newline(s.drop_last());
        assert(crate::format::spec_trim_end(s) == crate::format::spec_trim_end(s.drop_last()));
    }
}

/// Trimming keeps every character of a newline-free sequence newline-free.
proof fn lemma_trim_keeps_no_newline(s: Seq<char>)
    requires
        forall|k: int| 0 <= k < s.len() ==> #[trigger] s[k] != '\n',
    ensures
        forall|k: int|
            0 <= k < crate::format::spec_trim_ws(s).len()
                ==> #[trigger] crate::format::spec_trim_ws(s)[k] != '\n',
{
    lemma_trim_start_keeps_no_newline(s);
    lemma_trim_end_keeps_no_newline(crate::format::spec_trim_start(s));
}

/// Stripping a trailing carriage return keeps a line newline-free.
proof fn lemma_strip_cr_no_newline(s: Seq<char>)
    requires
        !s.contains('\n'),
    ensures
        !crate::format::spec_strip_cr(s).contains('\n'),
{
    let stripped = crate::format::spec_strip_cr(s);
    if stripped.contains('\n') {
        let w = choose|w: int| 0 <= w < stripped.len() && stripped[w] == '\n';
        assert(s[w] == '\n');
        assert(s.contains('\n'));
    }
}

proof fn lemma_feed_preserves_eof_clean(st: TransState, text: Seq<char>)
    requires
        spec_eof_clean_state(st),
    ensures
        match crate::format::spec_feed(st, text) {
            Some(st2) => spec_eof_clean_state(st2),
            None => true,
        },
    decreases text.len(),
{
    if text.len() == 0 {
    } else {
        let c = text[0];
        if c == '\n' {
            lemma_strip_cr_no_newline(st.pending);
            lemma_line_preserves_eof_clean(st, crate::format::spec_strip_cr(st.pending));
        } else {
            let st2 = TransState { pending: st.pending.push(c), ..st };
            assert(!st2.pending.contains('\n')) by {
                if st2.pending.contains('\n') {
                    let w = choose|w: int|
                        0 <= w < st2.pending.len() && st2.pending[w] == '\n';
                    if w < st.pending.len() {
                        assert(st.pending.contains('\n'));
                    }
                }
            }
        }
        match crate::format::spec_step(st, c) {
            Some(st2) => {
                lemma_feed_preserves_eof_clean(st2, text.skip(1));
            },
            None => {},
        }
    }
}

/// The strictly-legacy translation of any stream never contains a line
/// equal to `# EOF`: whenever the translation succeeds, its whole output
/// is newline-terminated and every one of its lines differs from the
/// terminator.
pub proof fn lemma_legacy_translation_never_contains_eof(text: Seq<char>, translate_info: bool)
    ensures
        match crate::format::spec_translate_text(text, true, translate_info) {
            Some(out) => spec_eof_clean(out) && (out.len() > 0 ==> out.last() == '\n'),
            None => true,
        },
{
    let st0 = crate::format::spec_init_state(true, translate_info);
    assert(spec_eof_clean_state(st0)) by {
        assert(!st0.pending.contains('\n')) by {
            if st0.pending.contains('\n') {
                let w = choose|w: int| 0 <= w < st0.pending.len() && st0.pending[w] == '\n';
            }
        }
    }
    lemma_feed_preserves_eof_clean(st0, text);
    match crate::format::spec_feed(st0, text) {
        Some(st1) => {
            if st1.pending.len() == 0 {
            } else {
                lemma_line_preserves_eof_clean(st1, st1.pending);
            }
        },
        None => {},
    }
}


/// A translator that keeps the terminator passes the `# EOF` line
/// through unchanged: the pull-compatible dialect still ends its output
/// with the terminator of the strict stream.
pub proof fn lemma_pull_dialect_keeps_eof(st: TransState)
    requires
        !st.remove_eof,
    ensures
        spec_line_result(st, "# EOF"@) == Some(
            TransState {
                out: st.out + "# EOF"@ + seq!['\n'],
                pending: Seq::<char>::empty(),
                ..st
            },
        ),
{
    reveal_strlit("# EOF");
    reveal_strlit("# TYPE ");
    reveal_strlit("#");
    let line = "# EOF"@;
    assert(!crate::format::spec_starts_with(line, "# TYPE "@)) by {
        assert(line.len() == 5 && "# TYPE "@.len() == 7);
    }
    assert(crate::format::spec_starts_with(line, "#"@)) by {
        assert(line.take(1) =~= "#"@);
    }
    assert(spec_line_result(st, line).unwrap() =~~= (TransState {
        out: st.out + "# EOF"@ + seq!['\n'],
        pending: Seq::<char>::empty(),
        ..st
    }));
}


/// The bit-pattern comparison of doubles orders every pair of values
/// that are neither NaN nor subnormal, and only those: `None` is
/// returned exactly for the values the partial order leaves unordered.
pub proof fn lemma_compare_f64_bits_totality(lhs: u64, rhs: u64)
    ensures
        crate::buckets::spec_compare_f64_bits(lhs, rhs) is None <==> (
        crate::buckets::spec_is_nan(lhs) || crate::buckets::spec_is_nan(rhs)
            || crate::buckets::spec_is_subnormal(lhs) || crate::buckets::spec_is_subnormal(rhs)),
{
}

/// The two IEEE-754 zeros compare as equal.
pub proof fn lemma_compare_f64_bits_zeros()
    ensures
        crate::buckets::spec_compare_f64_bits(0x0000_0000_0000_0000u64, 0x8000_0000_0000_0000u64)
            == Some(core::cmp::Ordering::Equal),
        crate::buckets::spec_compare_f64_bits(0x8000_0000_0000_0000u64, 0x0000_0000_0000_0000u64)
            == Some(core::cmp::Ordering::Equal),
{
    assert(crate::buckets::spec_exponent_bits(0x8000_0000_0000_0000u64) == 0) by (bit_vector);
    assert(crate::buckets::spec_fraction_bits(0x8000_0000_0000_0000u64) == 0) by (bit_vector);
    assert(crate::buckets::spec_exponent_bits(0u64) == 0) by (bit_vector);
    assert(crate::buckets::spec_fraction_bits(0u64) == 0) by (bit_vector);
}

/// Swapping the arguments of the bit-pattern comparison reverses the
/// ordering.
pub proof fn lemma_compare_f64_bits_antisymmetry(lhs: u64, rhs: u64)
    ensures
        crate::buckets::spec_compare_f64_bits(rhs, lhs) == match crate::buckets::spec_compare_f64_bits(
            lhs,
            rhs,
        ) {
            None => None::<core::cmp::Ordering>,
            Some(o) => Some(crate::buckets::spec_reverse_ordering(o)),
        },
{
}


/// Feeding a concatenation equals feeding its parts in order.
proof fn lemma_feed_split(st: TransState, a: Seq<char>, b: Seq<char>)
    ensures
        crate::format::spec_feed(st, a + b) == match crate::format::spec_feed(st, a) {
            Some(mid) => crate::format::spec_feed(mid, b),
            None => None::<TransState>,
        },
    decreases a.len(),
{
    if a.len() == 0 {
        assert(a + b =~= b);
    } else {
        assert((a + b)[0] == a[0]);
        match crate::format::spec_step(st, a[0]) {
            Some(st2) => {
                assert((a + b).skip(1) =~= a.skip(1) + b);
                lemma_feed_split(st2, a.skip(1), b);
            },
            None => {
                assert((a + b).len() != 0);
            },
        }
    }
}

/// Every successfully processed line leaves the line buffer empty.
proof fn lemma_line_result_clears_pending(st: TransState, line: Seq<char>)
    ensures
        match spec_line_result(st, line) {
            Some(st2) => st2.pending == Seq::<char>::empty(),
            None => true,
        },
{
}

/// After feeding text that ends with a newline, the line buffer is
/// empty.
proof fn lemma_feed_newline_terminated(st: TransState, text: Seq<char>)
    requires
        text.len() > 0,
        text.last() == '\n',
    ensures
        match crate::format::spec_feed(st, text) {
            Some(st2) => st2.pending == Seq::<char>::empty(),
            None => true,
        },
{
    let head = text.drop_last();
    let tail = seq!['\n'];
    assert(text =~= head + tail);
    lemma_feed_split(st, head, tail);
    match crate::format::spec_feed(st, head) {
        Some(mid) => {
            assert(tail[0] == '\n');
            assert(tail.skip(1) =~= Seq::<char>::empty());
            lemma_line_result_clears_pending(mid, crate::format::spec_strip_cr(mid.pending));
            match crate::format::spec_step(mid, '\n') {
                Some(st3) => {
                    assert(crate::format::spec_feed(st3, Seq::<char>::empty()) == Some(st3));
                },
                None => {},
            }
        },
        None => {},
    }
}

/// The translation of a stream that ends with the strict terminator
/// line, by a translator that keeps the terminator, itself ends with the
/// `# EOF` line - the pull-compatible dialect always closes its output
/// with the terminator.
pub proof fn lemma_pull_translation_ends_with_eof(text: Seq<char>, translate_info: bool)
    requires
        text.len() >= 6,
        text.skip(text.len() - 6) == "# EOF\n"@,
        text.len() > 6 ==> text[text.len() - 7] == '\n',
    ensures
        match crate::format::spec_translate_text(text, false, translate_info) {
            Some(out) => out.len() >= 6 && out.skip(out.len() - 6) == "# EOF\n"@,
            None => true,
        },
{
    reveal_strlit("# EOF\n");
    reveal_strlit("# EOF");
    let st0 = crate::format::spec_init_state(false, translate_info);
    let prefix = text.take(text.len() - 6);
    let suffix = text.skip(text.len() - 6);
    assert(text =~= prefix + suffix);
    lemma_feed_split(st0, prefix, suffix);
    match crate::format::spec_feed(st0, prefix) {
        None => {},
        Some(st1) => {
            assert(st1.pending == Seq::<char>::empty()) by {
                if prefix.len() == 0 {
                    assert(crate::format::spec_feed(st0, prefix) == Some(st0));
                } else {
                    assert(prefix.last() == text[text.len() - 7]);
                    lemma_feed_newline_terminated(st0, prefix);
                }
            }
            assert(st1.remove_eof == st0.remove_eof) by {
                lemma_feed_keeps_flags(st0, prefix);
            }
            // Feed the five characters of the terminator line, then the
            // final newline.
            let line = "# EOF"@;
            let body = suffix.take(5);
            assert(body =~= line);
            assert(suffix =~= body + suffix.skip(5));
            lemma_feed_split(st1, body, suffix.skip(5));
            let st2 = crate::format::spec_feed(st1, body);
            assert(st2 == Some(
                TransState { pending: line, ..st1 },
            )) by {
                lemma_feed_pushes_line(st1, line);
            }
            let st2v = st2.unwrap();
            assert(suffix.skip(5) =~= seq!['\n']);
            assert(crate::format::spec_strip_cr(st2v.pending) == line) by {
                assert(line.last() == 'F');
            }
            assert(crate::format::spec_feed(st2v, seq!['\n']) == crate::format::spec_step(
                st2v,
                '\n',
            )) by {
                assert(seq!['\n'].skip(1) =~= Seq::<char>::empty());
                match crate::format::spec_step(st2v, '\n') {
                    Some(st3) => {
                        assert(crate::format::spec_feed(st3, Seq::<char>::empty()) == Some(st3));
                    },
                    None => {},
                }
            }
            lemma_pull_dialect_keeps_eof(st2v);
            match crate::format::spec_feed(st0, text) {
                Some(st3) => {
                    assert(st3.out =~= st2v.out + "# EOF"@ + seq!['\n']);
                    assert(st3.pending == Seq::<char>::empty());
                    assert(st3.out.skip(st3.out.len() - 6) =~= "# EOF\n"@);
                },
                None => {},
            }
        },
    }
}

/// Feeding text does not change the configuration flags.
proof fn lemma_feed_keeps_flags(st: TransState, text: Seq<char>)
    ensures
        match crate::format::spec_feed(st, text) {
            Some(st2) => st2.remove_eof == st.remove_eof && st2.translate_info
                == st.translate_info,
            None => true,
        },
    decreases text.len(),
{
    if text.len() > 0 {
        match crate::format::spec_step(st, text[0]) {
            Some(st2) => {
                lemma_feed_keeps_flags(st2, text.skip(1));
            },
            None => {},
        }
    }
}

/// Feeding newline-free characters onto an empty line buffer stores
/// exactly those characters.
proof fn lemma_feed_pushes_line(st: TransState, line: Seq<char>)
    requires
        st.pending == Seq::<char>::empty(),
        !line.contains('\n'),
    ensures
        crate::format::spec_feed(st, line) == Some(TransState { pending: line, ..st }),
    decreases line.len(),
{
    lemma_feed_pushes_line_from(st, Seq::<char>::empty(), line);
}

proof fn lemma_feed_pushes_line_from(st: TransState, done: Seq<char>, rest: Seq<char>)
    requires
        st.pending == done,
        !rest.contains('\n'),
    ensures
        crate::format::spec_feed(st, rest) == Some(TransState { pending: done + rest, ..st }),
    decreases rest.len(),
{
    if rest.len() == 0 {
        assert(done + rest =~= done);
        assert(TransState { pending: done + rest, ..st } =~~= st);
    } else {
        let c = rest[0];
        assert(c != '\n') by {
            if c == '\n' {
                assert(rest.contains('\n'));
            }
        }
        let st2 = TransState { pending: done.push(c), ..st };
        assert(!rest.skip(1).contains('\n')) by {
            if rest.skip(1).contains('\n') {
                let w = choose|w: int|
                    0 <= w < rest.skip(1).len() && rest.skip(1)[w] == '\n';
                assert(rest[w + 1] == '\n');
                assert(rest.contains('\n'));
            }
        }
        lemma_feed_pushes_line_from(st2, done.push(c), rest.skip(1));
        assert(done.push(c) + rest.skip(1) =~= done + rest);
    }
}


/// The sample lines of one series end with a newline or are empty.
proof fn lemma_series_lines_newline_terminated(name: Seq<char>, s: crate::encoding::MetricSeries)
    ensures
        spec_series_lines(name, s).len() > 0 ==> spec_series_lines(name, s).last() == '\n',
{
    reveal_strlit("\n");
    reveal_strlit(" 1\n");
}

proof fn lemma_all_series_lines_newline_terminated(
    name: Seq<char>,
    series: Seq<crate::encoding::MetricSeries>,
    i: int,
)
    requires
        0 <= i,
    ensures
        spec_all_series_lines(name, series, i).len() > 0 ==> spec_all_series_lines(
            name,
            series,
            i,
        ).last() == '\n',
    decreases series.len() - i,
{
    if i < series.len() {
        lemma_series_lines_newline_terminated(name, series[i]);
        lemma_all_series_lines_newline_terminated(name, series, i + 1);
    }
}

proof fn lemma_render_entry_newline_terminated(e: RenderEntry)
    ensures
        spec_render_entry(e).len() > 0 && spec_render_entry(e).last() == '\n',
{
    reveal_strlit("\n");
    lemma_all_series_lines_newline_terminated(e.name@, e.series@, 0);
}

proof fn lemma_render_entries_newline_terminated(es: Seq<RenderEntry>, i: int)
    requires
        0 <= i,
    ensures
        spec_render_entries(es, i).len() > 0 ==> spec_render_entries(es, i).last() == '\n',
    decreases es.len() - i,
{
    if i < es.len() {
        lemma_render_entry_newline_terminated(es[i]);
        lemma_render_entries_newline_terminated(es, i + 1);
    }
}

/// The encoded document in the pull-compatible dialect, whenever the
/// translation succeeds, ends with the `# EOF` terminator line; in the
/// strictly-legacy dialect it never contains such a line at all.
pub proof fn lemma_encoded_documents_handle_eof(es: Seq<RenderEntry>)
    ensures
        match spec_encode_document(es, Format::OpenMetricsForPrometheus) {
            Some(out) => out.len() >= 6 && out.skip(out.len() - 6) == "# EOF\n"@,
            None => true,
        },
        match spec_encode_document(es, Format::Prometheus) {
            Some(out) => spec_eof_clean(out),
            None => true,
        },
{
    reveal_strlit("# EOF\n");
    let doc = spec_render_document(es);
    let body = spec_render_entries(es, 0);
    lemma_render_entries_newline_terminated(es, 0);
    assert(doc.len() >= 6);
    assert(doc.skip(doc.len() - 6) =~= "# EOF\n"@) by {
        assert("# EOF\n"@.len() == 6);
        assert(doc.len() == body.len() + 6);
    }
    assert(doc.len() > 6 ==> doc[doc.len() - 7] == '\n') by {
        if doc.len() > 6 {
            assert(body.len() > 0);
            assert(doc[body.len() - 1] == body.last());
        }
    }
    lemma_pull_translation_ends_with_eof(doc, true);
    lemma_legacy_translation_never_contains_eof(doc, true);
}


/// A `# TYPE` declaration for a counter passes through unchanged and
/// becomes the remembered declaration, so that following sample lines
/// lose their `_total` suffix.
pub proof fn lemma_counter_type_line_declares(st: TransState, name: Seq<char>)
    requires
        name.len() > 0,
        forall|k: int| 0 <= k < name.len() ==> !spec_is_ws(#[trigger] name[k]),
    ensures
        spec_line_result(st, "# TYPE "@ + name + " counter"@) == Some(
            TransState {
                out: st.out + "# TYPE "@ + name + " counter"@ + seq!['\n'],
                last_def: Some(TypeDefModel { name: name, kind: MetricKind::Counter }),
                pending: Seq::<char>::empty(),
                ..st
            },
        ),
{
    reveal_strlit("# EOF");
    reveal_strlit("# TYPE ");
    reveal_strlit(" counter");
    reveal_strlit("info");
    reveal_strlit("counter");
    let line = "# TYPE "@ + name + " counter"@;
    assert(line != "# EOF"@) by {
        assert(line.len() >= 16);
        assert("# EOF"@.len() == 5);
    }
    assert(crate::format::spec_starts_with(line, "# TYPE "@)) by {
        assert(line.take(7) =~= "# TYPE "@);
    }
    let restpart = line.skip(7);
    assert(restpart =~= name + " counter"@);
    assert(crate::format::spec_trim_ws(restpart) == restpart) by {
        assert(restpart[0] == name[0]);
        assert(!spec_is_ws(restpart[0]));
        assert(crate::format::spec_trim_start(restpart) == restpart);
        assert(restpart.last() == 'r');
        assert(!spec_is_ws(restpart.last()));
        assert(crate::format::spec_trim_end(restpart) == restpart);
    }
    assert(spec_is_ws(restpart[name.len() as int])) by {
        assert(" counter"@[0] == ' ');
    }
    assert(forall|k: int| 0 <= k < name.len() ==> !spec_is_ws(#[trigger] restpart[k]));
    lemma_find_ws_first(restpart, name.len() as int, 0);
    assert(restpart.take(name.len() as int) =~= name);
    assert(restpart.skip(name.len() as int + 1) =~= "counter"@);
    assert(crate::format::spec_kind_of_token("counter"@) == MetricKind::Counter);
    assert(spec_line_result(st, line).unwrap() =~~= (TransState {
        out: st.out + "# TYPE "@ + name + " counter"@ + seq!['\n'],
        last_def: Some(TypeDefModel { name: name, kind: MetricKind::Counter }),
        pending: Seq::<char>::empty(),
        ..st
    }));
}


/// A comment line other than a type declaration (and other than a
/// removed terminator) passes through unchanged.
proof fn lemma_comment_line_passes_through(st: TransState, line: Seq<char>)
    requires
        line.len() > 0,
        line[0] == '#',
        !crate::format::spec_starts_with(line, "# TYPE "@),
        st.remove_eof ==> line != "# EOF"@,
    ensures
        spec_line_result(st, line) == Some(
            TransState { out: st.out + line + seq!['\n'], pending: Seq::<char>::empty(), ..st },
        ),
{
    reveal_strlit("#");
    assert(crate::format::spec_starts_with(line, "#"@)) by {
        assert(line.take(1) =~= "#"@);
    }
    assert(spec_line_result(st, line).unwrap() =~~= (TransState {
        out: st.out + line + seq!['\n'],
        pending: Seq::<char>::empty(),
        ..st
    }));
}

/// Feeding one newline-terminated line from a state with an empty line
/// buffer processes exactly that line.
proof fn lemma_feed_one_line(st: TransState, line: Seq<char>)
    requires
        st.pending == Seq::<char>::empty(),
        !line.contains('\n'),
        line.len() > 0 ==> line.last() != '\r',
    ensures
        crate::format::spec_feed(st, line + seq!['\n']) == spec_line_result(
            TransState { pending: line, ..st },
            line,
        ),
{
    lemma_feed_split(st, line, seq!['\n']);
    lemma_feed_pushes_line(st, line);
    let mid = TransState { pending: line, ..st };
    assert(crate::format::spec_strip_cr(mid.pending) == line);
    assert(seq!['\n'][0] == '\n');
    assert(seq!['\n'].skip(1) =~= Seq::<char>::empty());
    match spec_line_result(mid, line) {
        Some(st2) => {
            assert(crate::format::spec_feed(st2, Seq::<char>::empty()) == Some(st2));
        },
        None => {},
    }
}

/// The round trip of a counter through the pull-compatible dialect: a
/// document declaring one counter, whose strict form reports the sample
/// under the mandatory `_total` suffix, is translated so that the sample
/// line carries the bare metric name, the `# TYPE` line keeps the
/// `counter` kind, and the terminator is kept - and nothing else changes.
pub proof fn lemma_counter_document_round_trip(e: RenderEntry, value: u64)
    requires
        e.kind == MetricKind::Counter,
        e.unit is None,
        e.series@.len() == 1,
        e.series@[0].labels@.len() == 0,
        e.series@[0].payload == (crate::encoding::MetricPayload::Counter { value }),
        e.name@.len() > 0,
        e.name@[0] != '#',
        forall|k: int| 0 <= k < e.name@.len() ==> !spec_is_name_end(#[trigger] e.name@[k]),
        !e.help@.contains('\n'),
    ensures
        spec_encode_document(seq![e], Format::OpenMetricsForPrometheus) == Some(
            "# HELP "@ + e.name@ + " "@ + e.help@ + ".\n"@ + "# TYPE "@ + e.name@ + " counter"@
                + seq!['\n'] + e.name@ + " "@ + crate::text::spec_render_nat(value as nat)
                + seq!['\n'] + "# EOF"@ + seq!['\n'],
        ),
{
    reveal_strlit("# HELP ");
    reveal_strlit("# TYPE ");
    reveal_strlit("# EOF");
    reveal_strlit("# EOF\n");
    reveal_strlit(".\n");
    reveal_strlit(".");
    reveal_strlit("\n");
    reveal_strlit(" ");
    reveal_strlit("_total");
    reveal_strlit(" counter");
    reveal_strlit("counter");
    let n = e.name@;
    let h = e.help@;
    let help_line = "# HELP "@ + n + " "@ + h + "."@;
    let type_line = "# TYPE "@ + n + " counter"@;
    let sample_rest = " "@ + crate::text::spec_render_nat(value as nat);
    let sample_line = n + "_total"@ + sample_rest;
    // The strict document consists of exactly these four lines.
    let doc = spec_render_document(seq![e]);
    assert(spec_all_series_lines(n, e.series@, 0) =~= sample_line + seq!['\n']) by {
        assert(spec_all_series_lines(n, e.series@, 1) =~= Seq::<char>::empty());
        assert(crate::render::spec_label_block(e.series@[0].labels@) =~= Seq::<char>::empty());
        assert(spec_series_lines(n, e.series@[0]) =~= sample_line + seq!['\n']);
    }
    assert(spec_render_entry(e) =~= (help_line + seq!['\n']) + (type_line + seq!['\n']) + (
    sample_line + seq!['\n'])) by {
        assert(".\n"@ =~= seq!['.', '\n']);
    }
    assert(doc =~= ((help_line + seq!['\n']) + ((type_line + seq!['\n']) + ((sample_line
        + seq!['\n']) + ("# EOF"@ + seq!['\n']))))) by {
        assert(spec_render_entries(seq![e], 1) =~= Seq::<char>::empty());
        assert(spec_render_entries(seq![e], 0) =~= spec_render_entry(e));
        assert("# EOF\n"@ =~= "# EOF"@ + seq!['\n']);
    }
    // Newline-freedom of each fed line.
    assert forall|k: int| 0 <= k < n.len() implies #[trigger] n[k] != '\n' by {
        assert(!spec_is_name_end(n[k]));
    }
    assert forall|k: int| 0 <= k < h.len() implies #[trigger] h[k] != '\n' by {
        if h[k] == '\n' {
            assert(h.contains('\n'));
        }
    }
    assert(!help_line.contains('\n')) by {
        contains_from_index(help_line);
    }
    assert(!type_line.contains('\n')) by {
        contains_from_index(type_line);
    }
    assert(!sample_line.contains('\n')) by {
        lemma_render_nat_no_newline(value as nat);
        contains_from_index(sample_line);
    }
    assert(!("# EOF"@).contains('\n')) by {
        contains_from_index("# EOF"@);
    }
    // Walk the four lines through the translator.
    let st0 = crate::format::spec_init_state(false, true);
    assert(st0.pending =~= Seq::<char>::empty());
    lemma_feed_one_line(st0, help_line);
    assert(help_line[0] == '#');
    assert(!crate::format::spec_starts_with(help_line, "# TYPE "@)) by {
        if crate::format::spec_starts_with(help_line, "# TYPE "@) {
            assert(help_line.take(7)[2] == help_line[2]);
            assert(help_line[2] == 'H');
        }
    }
    lemma_comment_line_passes_through(TransState { pending: help_line, ..st0 }, help_line);
    let st1 = spec_line_result(TransState { pending: help_line, ..st0 }, help_line).unwrap();
    assert(crate::format::spec_feed(st0, help_line + seq!['\n']) == Some(st1));
    lemma_feed_one_line(st1, type_line);
    lemma_counter_type_line_declares(TransState { pending: type_line, ..st1 }, n);
    let st2 = spec_line_result(TransState { pending: type_line, ..st1 }, type_line).unwrap();
    assert(crate::format::spec_feed(st1, type_line + seq!['\n']) == Some(st2));
    lemma_feed_one_line(st2, sample_line);
    assert(sample_rest.len() > 0 && spec_is_name_end(sample_rest[0]));
    assert forall|k: int|
        0 <= k < (n + "_total"@).len() implies !spec_is_name_end(
        #[trigger] (n + "_total"@)[k]) by {
        if k < n.len() {
            assert((n + "_total"@)[k] == n[k]);
        } else {
            assert((n + "_total"@)[k] == "_total"@[k - n.len()]);
        }
    }
    lemma_counter_sample_line_loses_suffix(
        TransState { pending: sample_line, ..st2 },
        n,
        sample_rest,
    );
    assert(sample_line =~= (n + "_total"@) + sample_rest);
    let st3 = spec_line_result(TransState { pending: sample_line, ..st2 }, sample_line).unwrap();
    assert(crate::format::spec_feed(st2, sample_line + seq!['\n']) == Some(st3));
    lemma_feed_one_line(st3, "# EOF"@);
    lemma_pull_dialect_keeps_eof(TransState { pending: "# EOF"@, ..st3 });
    let st4 = spec_line_result(TransState { pending: "# EOF"@, ..st3 }, "# EOF"@).unwrap();
    assert(crate::format::spec_feed(st3, "# EOF"@ + seq!['\n']) == Some(st4));
    // Compose the four feeds into one.
    lemma_feed_split(st2, sample_line + seq!['\n'], "# EOF"@ + seq!['\n']);
    assert(crate::format::spec_feed(st2, (sample_line + seq!['\n']) + ("# EOF"@ + seq!['\n']))
        == Some(st4));
    lemma_feed_split(st1, type_line + seq!['\n'], (sample_line + seq!['\n']) + ("# EOF"@
        + seq!['\n']));
    assert(crate::format::spec_feed(st1, (type_line + seq!['\n']) + ((sample_line + seq!['\n'])
        + ("# EOF"@ + seq!['\n']))) == Some(st4));
    lemma_feed_split(st0, help_line + seq!['\n'], (type_line + seq!['\n']) + ((sample_line
        + seq!['\n']) + ("# EOF"@ + seq!['\n'])));
    assert(crate::format::spec_feed(st0, (help_line + seq!['\n']) + ((type_line + seq!['\n'])
        + ((sample_line + seq!['\n']) + ("# EOF"@ + seq!['\n'])))) == Some(st4));
    assert(crate::format::spec_feed(st0, doc) == Some(st4));
    assert(st4.pending =~= Seq::<char>::empty());
    assert(crate::format::spec_flush(st4) == Some(st4));
    assert(crate::format::spec_translate_text(doc, false, true) == Some(st4.out));
    assert(crate::render::spec_format_flags(Format::OpenMetricsForPrometheus) == (false, true));
    assert(spec_encode_document(seq![e], Format::OpenMetricsForPrometheus) == Some(st4.out));
    assert(st4.out =~= "# HELP "@ + n + " "@ + h + ".\n"@ + "# TYPE "@ + n + " counter"@
        + seq!['\n'] + n + " "@ + crate::text::spec_render_nat(value as nat) + seq!['\n']
        + "# EOF"@ + seq!['\n']) by {
        assert(".\n"@ =~= seq!['.', '\n']);
    }
}

/// The decimal rendering of a number holds only digit characters, never
/// a newline or carriage return.
proof fn lemma_render_nat_no_newline(v: nat)
    ensures
        forall|k: int|
            0 <= k < crate::text::spec_render_nat(v).len()
                ==> #[trigger] crate::text::spec_render_nat(v)[k] != '\n'
                && crate::text::spec_render_nat(v)[k] != '\r',
    decreases v,
{
    let s = crate::text::spec_render_nat(v);
    if v >= 10 {
        lemma_render_nat_no_newline(v / 10);
        let sub = crate::text::spec_render_nat(v / 10);
        assert forall|k: int|
            0 <= k < s.len() implies #[trigger] s[k] != '\n' && s[k] != '\r' by {
            if k < sub.len() {
                assert(s[k] == sub[k]);
            } else {
                assert(s[k] == crate::text::spec_digit_char(v % 10));
            }
        }
    } else {
        assert forall|k: int|
            0 <= k < s.len() implies #[trigger] s[k] != '\n' && s[k] != '\r' by {
            assert(s[k] == crate::text::spec_digit_char(v));
        }
    }
}

/// From pointwise newline-freedom to the absence of a newline.
proof fn contains_from_index(s: Seq<char>)
    requires
        forall|k: int| 0 <= k < s.len() ==> #[trigger] s[k] != '\n',
    ensures
        !s.contains('\n'),
{
    if s.contains('\n') {
        let w = choose|w: int| 0 <= w < s.len() && s[w] == '\n';
        assert(s[w] != '\n');
    }
}


/// Whether a text is newline-terminated or empty.
pub open spec fn spec_line_complete(s: Seq<char>) -> bool {
    s.len() > 0 ==> s.last() == '\n'
}

/// Concatenating two newline-terminated texts whose lines all differ
/// from `# EOF` yields such a text again: since the first part ends at a
/// line boundary, no line straddles the seam.
proof fn lemma_eof_clean_concat(a: Seq<char>, b: Seq<char>)
    requires
        spec_eof_clean(a),
        spec_line_complete(a),
        spec_eof_clean(b),
        spec_line_complete(b),
    ensures
        spec_eof_clean(a + b),
        spec_line_complete(a + b),
{
    let s = a + b;
    assert forall|i: int, j: int|
        {
            &&& 0 <= i <= j < s.len()
            &&& (i == 0 || s[i - 1] == '\n')
            &&& s[j] == '\n'
            &&& (forall|k: int| i <= k < j ==> #[trigger] s[k] != '\n')
        } implies #[trigger] s.subrange(i, j) != "# EOF"@ by {
        if j < a.len() {
            assert(s.subrange(i, j) =~= a.subrange(i, j));
            assert(a.subrange(i, j) != "# EOF"@) by {
                assert forall|k: int| i <= k < j implies #[trigger] a[k] != '\n' by {
                    assert(s[k] != '\n');
                }
                if i > 0 {
                    assert(a[i - 1] == s[i - 1]);
                }
            }
        } else {
            assert(i >= a.len()) by {
                if i < a.len() {
                    assert(a.len() > 0);
                    assert(s[a.len() - 1] == a.last());
                    assert(s[a.len() - 1] != '\n');
                }
            }
            assert(s.subrange(i, j) =~= b.subrange(i - a.len(), j - a.len()));
            assert(b.subrange(i - a.len(), j - a.len()) != "# EOF"@) by {
                let i2 = i - a.len();
                let j2 = j - a.len();
                assert forall|k: int| i2 <= k < j2 implies #[trigger] b[k] != '\n' by {
                    assert(s[k + a.len()] != '\n');
                }
                if i2 > 0 {
                    assert(b[i2 - 1] == s[i - 1]);
                }
            }
        }
    }
    if s.len() > 0 {
        if b.len() > 0 {
            assert(s.last() == b.last());
        } else {
            assert(s =~= a);
            assert(s.last() == a.last());
        }
    }
}

/// One complete line other than the terminator is a clean text.
proof fn lemma_eof_clean_single_line(l: Seq<char>)
    requires
        !l.contains('\n'),
        l != "# EOF"@,
    ensures
        spec_eof_clean(l + seq!['\n']),
        spec_line_complete(l + seq!['\n']),
{
    assert(spec_eof_clean(Seq::<char>::empty()));
    lemma_eof_clean_append(Seq::<char>::empty(), l);
    assert((Seq::<char>::empty() + l) + seq!['\n'] =~= l + seq!['\n']);
}


/// Escaping never produces a newline: the escape of a newline is the
/// two-character sequence backslash-n.
proof fn lemma_escape_no_newline(s: Seq<char>)
    ensures
        forall|k: int|
            0 <= k < crate::encoding::spec_escape_label_value(s).len()
                ==> #[trigger] crate::encoding::spec_escape_label_value(s)[k] != '\n',
    decreases s.len(),
{
    if s.len() > 0 {
        lemma_escape_no_newline(s.skip(1));
        let e = crate::encoding::spec_escape_label_value(s);
        let tail = crate::encoding::spec_escape_label_value(s.skip(1));
        assert forall|k: int| 0 <= k < e.len() implies #[trigger] e[k] != '\n' by {
            let head: Seq<char> = if s[0] == '\\' {
                seq!['\\', '\\']
            } else if s[0] == '"' {
                seq!['\\', '"']
            } else if s[0] == '\n' {
                seq!['\\', 'n']
            } else {
                seq![s[0]]
            };
            if k < head.len() {
                assert(e[k] == head[k]);
            } else {
                assert(e[k] == tail[k - head.len()]);
            }
        }
    }
}

/// Zero-padded digit runs hold only digit characters.
proof fn lemma_pad_digits_no_newline(v: nat, width: nat)
    ensures
        forall|k: int|
            0 <= k < crate::text::spec_pad_digits(v, width).len()
                ==> #[trigger] crate::text::spec_pad_digits(v, width)[k] != '\n',
    decreases width,
{
    if width > 0 {
        lemma_pad_digits_no_newline(v / 10, (width - 1) as nat);
        let s = crate::text::spec_pad_digits(v, width);
        let sub = crate::text::spec_pad_digits(v / 10, (width - 1) as nat);
        assert forall|k: int| 0 <= k < s.len() implies #[trigger] s[k] != '\n' by {
            if k < sub.len() {
                assert(s[k] == sub[k]);
            } else {
                assert(s[k] == crate::text::spec_digit_char(v % 10));
            }
        }
    }
}

/// Trimming zeros keeps a digit run free of newlines.
proof fn lemma_trim_zeros_no_newline(s: Seq<char>)
    requires
        forall|k: int| 0 <= k < s.len() ==> #[trigger] s[k] != '\n',
    ensures
        forall|k: int|
            0 <= k < crate::text::spec_trim_zeros(s).len()
                ==> #[trigger] crate::text::spec_trim_zeros(s)[k] != '\n',
    decreases s.len(),
{
    if s.len() > 0 && s.last() == '0' {
        assert(forall|k: int|
            0 <= k < s.drop_last().len() ==> #[trigger] s.drop_last()[k] != '\n');
        lemma_trim_zeros_no_newline(s.drop_last());
        assert(crate::text::spec_trim_zeros(s) == crate::text::spec_trim_zeros(s.drop_last()));
    }
}

/// The fixed-point rendering holds only a sign, digits and a point.
proof fn lemma_render_fixed_no_newline(v: int)
    ensures
        forall|k: int|
            0 <= k < crate::text::spec_render_fixed(v).len()
                ==> #[trigger] crate::text::spec_render_fixed(v)[k] != '\n',
{
    let s = crate::text::spec_render_fixed(v);
    let a = if v < 0 {
        (-v) as nat
    } else {
        v as nat
    };
    let whole = a / (crate::text::FIXED_SCALE as nat);
    let frac = a % (crate::text::FIXED_SCALE as nat);
    lemma_render_nat_no_newline(whole);
    lemma_pad_digits_no_newline(frac, 9);
    lemma_trim_zeros_no_newline(crate::text::spec_pad_digits(frac, 9));
    let sign: Seq<char> = if v < 0 {
        seq!['-']
    } else {
        Seq::<char>::empty()
    };
    let digits = crate::text::spec_render_nat(whole);
    let trimmed = crate::text::spec_trim_zeros(crate::text::spec_pad_digits(frac, 9));
    assert forall|k: int| 0 <= k < s.len() implies #[trigger] s[k] != '\n' by {
        if frac == 0 {
            if k < sign.len() {
                assert(s[k] == sign[k]);
            } else {
                assert(s[k] == digits[k - sign.len()]);
            }
        } else {
            if k < sign.len() {
                assert(s[k] == sign[k]);
            } else if k < sign.len() + digits.len() {
                assert(s[k] == digits[k - sign.len()]);
            } else if k == sign.len() + digits.len() {
                assert(s[k] == '.');
            } else {
                assert(s[k] == trimmed[k - sign.len() - digits.len() - 1]);
            }
        }
    }
}

/// Label names without newlines render to a newline-free body: values
/// are escaped, so only names need the premise.
pub open spec fn spec_pairs_hygienic(ps: Seq<LabelPair>) -> bool {
    forall|m: int| 0 <= m < ps.len() ==> !(#[trigger] ps[m]).name@.contains('\n')
}

proof fn lemma_labels_body_no_newline(ps: Seq<LabelPair>, i: int)
    requires
        0 <= i,
        spec_pairs_hygienic(ps),
    ensures
        forall|k: int|
            0 <= k < crate::render::spec_labels_body(ps, i).len()
                ==> #[trigger] crate::render::spec_labels_body(ps, i)[k] != '\n',
    decreases ps.len() - i,
{
    reveal_strlit(",");
    reveal_strlit("=\"");
    reveal_strlit("\"");
    if i < ps.len() {
        lemma_labels_body_no_newline(ps, i + 1);
        lemma_escape_no_newline(ps[i].value@);
        let s = crate::render::spec_labels_body(ps, i);
        let sep: Seq<char> = if i > 0 {
            ","@
        } else {
            Seq::<char>::empty()
        };
        let name = ps[i].name@;
        let escaped = crate::encoding::spec_escape_label_value(ps[i].value@);
        let tail = crate::render::spec_labels_body(ps, i + 1);
        assert forall|k: int| 0 <= k < name.len() implies #[trigger] name[k] != '\n' by {
            if name[k] == '\n' {
                assert(name.contains('\n'));
            }
        }
        assert forall|k: int| 0 <= k < s.len() implies #[trigger] s[k] != '\n' by {
            if k < sep.len() {
                assert(s[k] == sep[k]);
            } else if k < sep.len() + name.len() {
                assert(s[k] == name[k - sep.len()]);
            } else if k < sep.len() + name.len() + 2 {
                assert(s[k] == "=\""@[k - sep.len() - name.len()]);
            } else if k < sep.len() + name.len() + 2 + escaped.len() {
                assert(s[k] == escaped[k - sep.len() - name.len() - 2]);
            } else if k < sep.len() + name.len() + 2 + escaped.len() + 1 {
                assert(s[k] == "\""@[k - sep.len() - name.len() - 2 - escaped.len()]);
            } else {
                assert(s[k] == tail[k - sep.len() - name.len() - 3 - escaped.len()]);
            }
        }
    }
}

proof fn lemma_label_block_no_newline(ps: Seq<LabelPair>)
    requires
        spec_pairs_hygienic(ps),
    ensures
        forall|k: int|
            0 <= k < crate::render::spec_label_block(ps).len()
                ==> #[trigger] crate::render::spec_label_block(ps)[k] != '\n',
{
    reveal_strlit("{");
    reveal_strlit("}");
    lemma_labels_body_no_newline(ps, 0);
    let s = crate::render::spec_label_block(ps);
    if ps.len() > 0 {
        let body = crate::render::spec_labels_body(ps, 0);
        assert forall|k: int| 0 <= k < s.len() implies #[trigger] s[k] != '\n' by {
            if k == 0 {
                assert(s[k] == '{');
            } else if k < 1 + body.len() {
                assert(s[k] == body[k - 1]);
            } else {
                assert(s[k] == '}');
            }
        }
    }
}


/// The hygiene a snapshot entry needs so that every rendered line is a
/// single line starting with a known character: a non-empty name that
/// does not begin with `#` and holds no newline, a newline-free help
/// text, and newline-free label names (label values are escaped by the
/// renderer, so they need no premise).
pub open spec fn spec_series_hygienic(s: crate::encoding::MetricSeries) -> bool {
    &&& spec_pairs_hygienic(s.labels@)
    &&& match s.payload {
        crate::encoding::MetricPayload::Info { pairs } => spec_pairs_hygienic(pairs@),
        _ => true,
    }
}

pub open spec fn spec_entry_hygienic(e: RenderEntry) -> bool {
    &&& e.name@.len() > 0
    &&& e.name@[0] != '#'
    &&& !e.name@.contains('\n')
    &&& !e.help@.contains('\n')
    &&& forall|k: int| 0 <= k < e.series@.len() ==> spec_series_hygienic(#[trigger] e.series@[k])
}

/// A rendered text piece of the shape `l + "\n"` whose body starts with
/// the metric name is one clean line.
proof fn lemma_sample_piece_clean(l: Seq<char>, name: Seq<char>)
    requires
        l.len() >= name.len(),
        forall|k: int| 0 <= k < name.len() ==> #[trigger] l[k] == name[k],
        name.len() > 0,
        name[0] != '#',
        forall|k: int| 0 <= k < l.len() ==> #[trigger] l[k] != '\n',
    ensures
        spec_eof_clean(l + seq!['\n']),
        spec_line_complete(l + seq!['\n']),
{
    reveal_strlit("# EOF");
    assert(l != "# EOF"@) by {
        assert(l[0] == name[0]);
        assert("# EOF"@[0] == '#');
    }
    contains_from_index(l);
    lemma_eof_clean_single_line(l);
}

/// The concatenation of newline-free pieces is newline-free; stated for
/// the pieces a sample line is built from.
proof fn lemma_name_no_newline(name: Seq<char>)
    requires
        !name.contains('\n'),
    ensures
        forall|k: int| 0 <= k < name.len() ==> #[trigger] name[k] != '\n',
{
    assert forall|k: int| 0 <= k < name.len() implies #[trigger] name[k] != '\n' by {
        if name[k] == '\n' {
            assert(name.contains('\n'));
        }
    }
}

/// Every bucket line of a histogram series is clean.
proof fn lemma_bucket_lines_clean(
    name: Seq<char>,
    labels: Seq<LabelPair>,
    bounds: Seq<i128>,
    counts: Seq<u64>,
    i: int,
)
    requires
        0 <= i,
        name.len() > 0,
        name[0] != '#',
        !name.contains('\n'),
        spec_pairs_hygienic(labels),
    ensures
        spec_eof_clean(crate::render::spec_bucket_lines(name, labels, bounds, counts, i)),
        spec_line_complete(crate::render::spec_bucket_lines(name, labels, bounds, counts, i)),
    decreases bounds.len() - i,
{
    reveal_strlit("_bucket{le=\"");
    reveal_strlit("\"");
    reveal_strlit(",");
    reveal_strlit("} ");
    reveal_strlit("\n");
    if i >= bounds.len() || i >= counts.len() {
        assert(spec_eof_clean(Seq::<char>::empty()));
    } else {
        lemma_bucket_lines_clean(name, labels, bounds, counts, i + 1);
        let line = crate::render::spec_bucket_line(name, labels, bounds[i], counts[i]);
        let l = line.drop_last();
        assert(line =~= l + seq!['\n']) by {
            assert(line.last() == '\n');
        }
        lemma_name_no_newline(name);
        lemma_render_fixed_no_newline(bounds[i] as int);
        lemma_render_nat_no_newline(counts[i] as nat);
        lemma_labels_body_no_newline(labels, 0);
        assert forall|k: int| 0 <= k < l.len() implies #[trigger] l[k] != '\n' by {
            assert(l[k] == line[k]);
            let fixed = crate::text::spec_render_fixed(bounds[i] as int);
            let lab: Seq<char> = if labels.len() > 0 {
                ","@ + crate::render::spec_labels_body(labels, 0)
            } else {
                Seq::<char>::empty()
            };
            let nat_part = crate::text::spec_render_nat(counts[i] as nat);
            if k < name.len() {
                assert(line[k] == name[k]);
            } else if k < name.len() + 12 {
                assert(line[k] == "_bucket{le=\""@[k - name.len()]);
            } else if k < name.len() + 12 + fixed.len() {
                assert(line[k] == fixed[k - name.len() - 12]);
            } else if k < name.len() + 13 + fixed.len() {
                assert(line[k] == '"');
            } else if k < name.len() + 13 + fixed.len() + lab.len() {
                assert(line[k] == lab[k - name.len() - 13 - fixed.len()]);
                if labels.len() > 0 {
                    let m = k - name.len() - 13 - fixed.len();
                    if m == 0 {
                        assert(lab[m] == ',');
                    } else {
                        assert(lab[m] == crate::render::spec_labels_body(labels, 0)[m - 1]);
                    }
                }
            } else if k < name.len() + 15 + fixed.len() + lab.len() {
                assert(line[k] == "} "@[k - name.len() - 13 - fixed.len() - lab.len()]);
            } else {
                assert(line[k] == nat_part[k - name.len() - 15 - fixed.len() - lab.len()]);
            }
        }
        assert forall|k: int| 0 <= k < name.len() implies #[trigger] l[k] == name[k] by {
            assert(l[k] == line[k]);
        }
        lemma_sample_piece_clean(l, name);
        lemma_eof_clean_concat(
            l + seq!['\n'],
            crate::render::spec_bucket_lines(name, labels, bounds, counts, i + 1),
        );
        assert((l + seq!['\n']) + crate::render::spec_bucket_lines(
            name,
            labels,
            bounds,
            counts,
            i + 1,
        ) =~= crate::render::spec_bucket_lines(name, labels, bounds, counts, i));
    }
}


proof fn lemma_render_int_no_newline(v: int)
    ensures
        forall|k: int|
            0 <= k < crate::text::spec_render_int(v).len()
                ==> #[trigger] crate::text::spec_render_int(v)[k] != '\n',
{
    let s = crate::text::spec_render_int(v);
    if v < 0 {
        lemma_render_nat_no_newline((-v) as nat);
        let digits = crate::text::spec_render_nat((-v) as nat);
        assert forall|k: int| 0 <= k < s.len() implies #[trigger] s[k] != '\n' by {
            if k == 0 {
                assert(s[k] == '-');
            } else {
                assert(s[k] == digits[k - 1]);
            }
        }
    } else {
        lemma_render_nat_no_newline(v as nat);
    }
}

/// Every sample line of one series is clean, and the series text is
/// newline-terminated.
#[verifier::rlimit(100)]
#[verifier::spinoff_prover]
proof fn lemma_series_lines_clean(name: Seq<char>, s: crate::encoding::MetricSeries)
    requires
        name.len() > 0,
        name[0] != '#',
        !name.contains('\n'),
        spec_series_hygienic(s),
    ensures
        spec_eof_clean(spec_series_lines(name, s)),
        spec_line_complete(spec_series_lines(name, s)),
{
    reveal_strlit("_total");
    reveal_strlit("_info");
    reveal_strlit("_sum");
    reveal_strlit("_count");
    reveal_strlit("_bucket{le=\"+Inf\"");
    reveal_strlit(" ");
    reveal_strlit(" 1\n");
    reveal_strlit(",");
    reveal_strlit("} ");
    reveal_strlit("\n");
    lemma_name_no_newline(name);
    lemma_label_block_no_newline(s.labels@);
    let block = crate::render::spec_label_block(s.labels@);
    match s.payload {
        crate::encoding::MetricPayload::Counter { value } => {
            lemma_render_nat_no_newline(value as nat);
            let nat_part = crate::text::spec_render_nat(value as nat);
            let l = name + "_total"@ + block + " "@ + nat_part;
            assert forall|k: int| 0 <= k < l.len() implies #[trigger] l[k] != '\n' by {
                if k < name.len() {
                    assert(l[k] == name[k]);
                } else if k < name.len() + 6 {
                    assert(l[k] == "_total"@[k - name.len()]);
                } else if k < name.len() + 6 + block.len() {
                    assert(l[k] == block[k - name.len() - 6]);
                } else if k < name.len() + 7 + block.len() {
                    assert(l[k] == ' ');
                } else {
                    assert(l[k] == nat_part[k - name.len() - 7 - block.len()]);
                }
            }
            assert forall|k: int| 0 <= k < name.len() implies #[trigger] l[k] == name[k] by {}
            lemma_sample_piece_clean(l, name);
            assert(spec_series_lines(name, s) =~= l + seq!['\n']);
        },
        crate::encoding::MetricPayload::Gauge { value } => {
            lemma_render_int_no_newline(value as int);
            let int_part = crate::text::spec_render_int(value as int);
            let l = name + block + " "@ + int_part;
            assert forall|k: int| 0 <= k < l.len() implies #[trigger] l[k] != '\n' by {
                if k < name.len() {
                    assert(l[k] == name[k]);
                } else if k < name.len() + block.len() {
                    assert(l[k] == block[k - name.len()]);
                } else if k < name.len() + 1 + block.len() {
                    assert(l[k] == ' ');
                } else {
                    assert(l[k] == int_part[k - name.len() - 1 - block.len()]);
                }
            }
            assert forall|k: int| 0 <= k < name.len() implies #[trigger] l[k] == name[k] by {}
            lemma_sample_piece_clean(l, name);
            assert(spec_series_lines(name, s) =~= l + seq!['\n']);
        },
        crate::encoding::MetricPayload::Info { pairs } => {
            let merged = s.labels@ + pairs@;
            assert(spec_pairs_hygienic(merged)) by {
                assert forall|m: int|
                    0 <= m < merged.len() implies !(#[trigger] merged[m]).name@.contains(
                    '\n',
                ) by {
                    if m < s.labels@.len() {
                        assert(merged[m] == s.labels@[m]);
                    } else {
                        assert(merged[m] == pairs@[m - s.labels@.len()]);
                    }
                }
            }
            lemma_label_block_no_newline(merged);
            let mblock = crate::render::spec_label_block(merged);
            let l = name + "_info"@ + mblock + seq![' ', '1'];
            assert forall|k: int| 0 <= k < l.len() implies #[trigger] l[k] != '\n' by {
                if k < name.len() {
                    assert(l[k] == name[k]);
                } else if k < name.len() + 5 {
                    assert(l[k] == "_info"@[k - name.len()]);
                } else if k < name.len() + 5 + mblock.len() {
                    assert(l[k] == mblock[k - name.len() - 5]);
                } else {
                    assert(l[k] == seq![' ', '1'][k - name.len() - 5 - mblock.len()]);
                }
            }
            assert forall|k: int| 0 <= k < name.len() implies #[trigger] l[k] == name[k] by {}
            lemma_sample_piece_clean(l, name);
            assert(spec_series_lines(name, s) =~= l + seq!['\n']);
        },
        crate::encoding::MetricPayload::Histogram { bounds, counts, count, sum } => {
            lemma_render_fixed_no_newline(sum as int);
            lemma_render_nat_no_newline(count as nat);
            let fixed = crate::text::spec_render_fixed(sum as int);
            let cnt = crate::text::spec_render_nat(count as nat);
            let l1 = name + "_sum"@ + block + " "@ + fixed;
            let l2 = name + "_count"@ + block + " "@ + cnt;
            let lab: Seq<char> = if s.labels@.len() > 0 {
                ","@ + crate::render::spec_labels_body(s.labels@, 0)
            } else {
                Seq::<char>::empty()
            };
            let l4 = name + "_bucket{le=\"+Inf\""@ + lab + "} "@ + cnt;
            lemma_labels_body_no_newline(s.labels@, 0);
            assert forall|k: int| 0 <= k < l1.len() implies #[trigger] l1[k] != '\n' by {
                if k < name.len() {
                    assert(l1[k] == name[k]);
                } else if k < name.len() + 4 {
                    assert(l1[k] == "_sum"@[k - name.len()]);
                } else if k < name.len() + 4 + block.len() {
                    assert(l1[k] == block[k - name.len() - 4]);
                } else if k < name.len() + 5 + block.len() {
                    assert(l1[k] == ' ');
                } else {
                    assert(l1[k] == fixed[k - name.len() - 5 - block.len()]);
                }
            }
            assert forall|k: int| 0 <= k < l2.len() implies #[trigger] l2[k] != '\n' by {
                if k < name.len() {
                    assert(l2[k] == name[k]);
                } else if k < name.len() + 6 {
                    assert(l2[k] == "_count"@[k - name.len()]);
                } else if k < name.len() + 6 + block.len() {
                    assert(l2[k] == block[k - name.len() - 6]);
                } else if k < name.len() + 7 + block.len() {
                    assert(l2[k] == ' ');
                } else {
                    assert(l2[k] == cnt[k - name.len() - 7 - block.len()]);
                }
            }
            assert forall|k: int| 0 <= k < l4.len() implies #[trigger] l4[k] != '\n' by {
                if k < name.len() {
                    assert(l4[k] == name[k]);
                } else if k < name.len() + 17 {
                    assert(l4[k] == "_bucket{le=\"+Inf\""@[k - name.len()]);
                } else if k < name.len() + 17 + lab.len() {
                    assert(l4[k] == lab[k - name.len() - 17]);
                    if s.labels@.len() > 0 {
                        let m = k - name.len() - 17;
                        if m == 0 {
                            assert(lab[m] == ',');
                        } else {
                            assert(lab[m] == crate::render::spec_labels_body(s.labels@, 0)[m
                                - 1]);
                        }
                    }
                } else if k < name.len() + 19 + lab.len() {
                    assert(l4[k] == "} "@[k - name.len() - 17 - lab.len()]);
                } else {
                    assert(l4[k] == cnt[k - name.len() - 19 - lab.len()]);
                }
            }
            assert forall|k: int| 0 <= k < name.len() implies #[trigger] l1[k] == name[k] by {}
            assert forall|k: int| 0 <= k < name.len() implies #[trigger] l2[k] == name[k] by {}
            assert forall|k: int| 0 <= k < name.len() implies #[trigger] l4[k] == name[k] by {}
            lemma_sample_piece_clean(l1, name);
            lemma_sample_piece_clean(l2, name);
            lemma_sample_piece_clean(l4, name);
            lemma_bucket_lines_clean(name, s.labels@, bounds@, counts@, 0);
            let buckets = crate::render::spec_bucket_lines(name, s.labels@, bounds@, counts@, 0);
            let inf = crate::render::spec_inf_bucket_line(name, s.labels@, count);
            assert(inf =~= l4 + seq!['\n']);
            lemma_eof_clean_concat(buckets, l4 + seq!['\n']);
            lemma_eof_clean_concat(l2 + seq!['\n'], buckets + (l4 + seq!['\n']));
            lemma_eof_clean_concat(
                l1 + seq!['\n'],
                (l2 + seq!['\n']) + (buckets + (l4 + seq!['\n'])),
            );
            assert(spec_series_lines(name, s) =~= (l1 + seq!['\n']) + ((l2 + seq!['\n']) + (
            buckets + (l4 + seq!['\n']))));
        },
    }
}


/// A comment piece (a line starting `# H`, `# T` or `# U`) differs from
/// the terminator at its third character.
proof fn lemma_comment_piece_clean(l: Seq<char>)
    requires
        l.len() >= 3,
        l[2] != 'E',
        forall|k: int| 0 <= k < l.len() ==> #[trigger] l[k] != '\n',
    ensures
        spec_eof_clean(l + seq!['\n']),
        spec_line_complete(l + seq!['\n']),
{
    reveal_strlit("# EOF");
    assert(l != "# EOF"@) by {
        assert("# EOF"@[2] == 'E');
    }
    contains_from_index(l);
    lemma_eof_clean_single_line(l);
}

proof fn lemma_kind_token_no_newline(k: crate::format::MetricKind)
    ensures
        forall|m: int|
            0 <= m < crate::render::spec_kind_token(k).len()
                ==> #[trigger] crate::render::spec_kind_token(k)[m] != '\n',
{
    reveal_strlit("counter");
    reveal_strlit("gauge");
    reveal_strlit("histogram");
    reveal_strlit("info");
    reveal_strlit("unknown");
}

proof fn lemma_unit_no_newline(u: crate::encoding::Unit)
    ensures
        forall|m: int|
            0 <= m < u.spec_as_str().len() ==> #[trigger] u.spec_as_str()[m] != '\n',
{
    reveal_strlit("amperes");
    reveal_strlit("bytes");
    reveal_strlit("celsius");
    reveal_strlit("grams");
    reveal_strlit("joules");
    reveal_strlit("meters");
    reveal_strlit("ratios");
    reveal_strlit("seconds");
    reveal_strlit("volts");
}

/// All sample lines of an entry's series are clean.
proof fn lemma_all_series_clean(name: Seq<char>, series: Seq<crate::encoding::MetricSeries>, i: int)
    requires
        0 <= i,
        name.len() > 0,
        name[0] != '#',
        !name.contains('\n'),
        forall|k: int| 0 <= k < series.len() ==> spec_series_hygienic(#[trigger] series[k]),
    ensures
        spec_eof_clean(spec_all_series_lines(name, series, i)),
        spec_line_complete(spec_all_series_lines(name, series, i)),
    decreases series.len() - i,
{
    if i < series.len() {
        lemma_series_lines_clean(name, series[i]);
        lemma_all_series_clean(name, series, i + 1);
        lemma_eof_clean_concat(
            spec_series_lines(name, series[i]),
            spec_all_series_lines(name, series, i + 1),
        );
    } else {
        assert(spec_eof_clean(Seq::<char>::empty()));
    }
}

/// Every line of one rendered entry differs from the terminator.
#[verifier::rlimit(100)]
#[verifier::spinoff_prover]
proof fn lemma_render_entry_clean(e: RenderEntry)
    requires
        spec_entry_hygienic(e),
    ensures
        spec_eof_clean(spec_render_entry(e)),
        spec_line_complete(spec_render_entry(e)),
{
    reveal_strlit("# HELP ");
    reveal_strlit("# TYPE ");
    reveal_strlit("# UNIT ");
    reveal_strlit(" ");
    reveal_strlit(".\n");
    reveal_strlit("\n");
    let name = e.name@;
    let help = e.help@;
    lemma_name_no_newline(name);
    assert forall|k: int| 0 <= k < help.len() implies #[trigger] help[k] != '\n' by {
        if help[k] == '\n' {
            assert(help.contains('\n'));
        }
    }
    let l1 = "# HELP "@ + name + " "@ + help + seq!['.'];
    assert forall|k: int| 0 <= k < l1.len() implies #[trigger] l1[k] != '\n' by {
        if k < 7 {
            assert(l1[k] == "# HELP "@[k]);
        } else if k < 7 + name.len() {
            assert(l1[k] == name[k - 7]);
        } else if k < 8 + name.len() {
            assert(l1[k] == ' ');
        } else if k < 8 + name.len() + help.len() {
            assert(l1[k] == help[k - 8 - name.len()]);
        } else {
            assert(l1[k] == '.');
        }
    }
    assert(l1[2] == 'H');
    lemma_comment_piece_clean(l1);
    lemma_kind_token_no_newline(e.kind);
    let token = crate::render::spec_kind_token(e.kind);
    let l2 = "# TYPE "@ + name + " "@ + token;
    assert forall|k: int| 0 <= k < l2.len() implies #[trigger] l2[k] != '\n' by {
        if k < 7 {
            assert(l2[k] == "# TYPE "@[k]);
        } else if k < 7 + name.len() {
            assert(l2[k] == name[k - 7]);
        } else if k < 8 + name.len() {
            assert(l2[k] == ' ');
        } else {
            assert(l2[k] == token[k - 8 - name.len()]);
        }
    }
    assert(l2[2] == 'T');
    lemma_comment_piece_clean(l2);
    lemma_all_series_clean(name, e.series@, 0);
    let series = spec_all_series_lines(name, e.series@, 0);
    match e.unit {
        Some(u) => {
            lemma_unit_no_newline(u);
            let ustr = u.spec_as_str();
            let l3 = "# UNIT "@ + name + " "@ + ustr;
            assert forall|k: int| 0 <= k < l3.len() implies #[trigger] l3[k] != '\n' by {
                if k < 7 {
                    assert(l3[k] == "# UNIT "@[k]);
                } else if k < 7 + name.len() {
                    assert(l3[k] == name[k - 7]);
                } else if k < 8 + name.len() {
                    assert(l3[k] == ' ');
                } else {
                    assert(l3[k] == ustr[k - 8 - name.len()]);
                }
            }
            assert(l3[2] == 'U');
            lemma_comment_piece_clean(l3);
            lemma_eof_clean_concat(l3 + seq!['\n'], series);
            lemma_eof_clean_concat(l2 + seq!['\n'], (l3 + seq!['\n']) + series);
            lemma_eof_clean_concat(
                l1 + seq!['\n'],
                (l2 + seq!['\n']) + ((l3 + seq!['\n']) + series),
            );
            assert(spec_render_entry(e) =~= (l1 + seq!['\n']) + ((l2 + seq!['\n']) + ((l3
                + seq!['\n']) + series)));
        },
        None => {
            lemma_eof_clean_concat(l2 + seq!['\n'], series);
            lemma_eof_clean_concat(l1 + seq!['\n'], (l2 + seq!['\n']) + series);
            assert(spec_render_entry(e) =~= (l1 + seq!['\n']) + ((l2 + seq!['\n']) + series));
        },
    }
}

proof fn lemma_render_entries_clean(es: Seq<RenderEntry>, i: int)
    requires
        0 <= i,
        forall|k: int| 0 <= k < es.len() ==> spec_entry_hygienic(#[trigger] es[k]),
    ensures
        spec_eof_clean(spec_render_entries(es, i)),
        spec_line_complete(spec_render_entries(es, i)),
    decreases es.len() - i,
{
    if i < es.len() {
        lemma_render_entry_clean(es[i]);
        lemma_render_entries_clean(es, i + 1);
        lemma_eof_clean_concat(spec_render_entry(es[i]), spec_render_entries(es, i + 1));
    } else {
        assert(spec_eof_clean(Seq::<char>::empty()));
    }
}

/// The strict document carries exactly one terminator, at its end: the
/// rendered body of hygienic entries contains no line equal to `# EOF`,
/// and the document is that body followed by the terminator line.
pub proof fn lemma_strict_document_single_terminator(es: Seq<RenderEntry>)
    requires
        forall|k: int| 0 <= k < es.len() ==> spec_entry_hygienic(#[trigger] es[k]),
    ensures
        spec_eof_clean(spec_render_entries(es, 0)),
        spec_render_entries(es, 0).len() > 0 ==> spec_render_entries(es, 0).last() == '\n',
        spec_render_document(es) == spec_render_entries(es, 0) + "# EOF\n"@,
{
    lemma_render_entries_clean(es, 0);
}

} // verus!
