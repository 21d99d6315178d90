//! Text exposition formats and the streaming translator that rewrites the
//! strict format into Prometheus-compatible dialects.

use vstd::prelude::*;
use vstd::string::StrSliceExecFns;

use crate::text::push_char;

verus! {

/// Metrics export format.
///
/// The supported formats are quite similar; they differ in how counter
/// and info metrics are named and whether the `# EOF` terminator is kept.
#[derive(Debug, Clone, Copy, PartialEq, Eq, Hash, Structural)]
pub enum Format {
    /// The strict text format: `_total` suffixes on counters, `_info`
    /// suffixes on info metrics, and a terminal `# EOF` line.
    OpenMetrics,
    /// The legacy text format: suffixes stripped, info metrics reported
    /// as gauges, and no `# EOF` terminator.
    Prometheus,
    /// The strict text format as understood by legacy scrapers: suffixes
    /// stripped and info metrics reported as gauges, but the `# EOF`
    /// terminator kept.
    OpenMetricsForPrometheus,
}

/// Content type for the strict text format.
pub fn open_metrics_content_type() -> (r: &'static str)
    ensures
        r@ == "application/openmetrics-text; version=1.0.0; charset=utf-8"@,
{
    "application/openmetrics-text; version=1.0.0; charset=utf-8"
}

/// Content type for the legacy text format.
pub fn prometheus_content_type() -> (r: &'static str)
    ensures
        r@ == "text/plain; version=0.0.4; charset=utf-8"@,
{
    "text/plain; version=0.0.4; charset=utf-8"
}

/// The kind of a metric, as named in `# TYPE` lines.
#[derive(Debug, Clone, Copy, PartialEq, Eq, Structural)]
pub enum MetricKind {
    Counter,
    Gauge,
    Histogram,
    Info,
    Unknown,
}

/// Error reported when the canonical stream handed to the translator is
/// malformed.
#[derive(Debug, Clone, Copy, PartialEq, Eq, Structural)]
pub struct FormatError;

/// A parsed `# TYPE` declaration: metric name and kind.
#[verifier::ext_equal]
pub struct TypeDefModel {
    pub name: Seq<char>,
    pub kind: MetricKind,
}

/// The translator state: configuration flags, the metric declaration seen
/// last, the output produced so far and the buffered partial line.
#[verifier::ext_equal]
pub struct TransState {
    pub remove_eof: bool,
    pub translate_info: bool,
    pub last_def: Option<TypeDefModel>,
    pub out: Seq<char>,
    pub pending: Seq<char>,
}

/// ASCII whitespace.
pub open spec fn spec_is_ws(c: char) -> bool {
    c == ' ' || c == '\t' || c == '\n' || c == '\r' || c == '\x0C'
}

/// Whether `s` starts with `prefix`.
pub open spec fn spec_starts_with(s: Seq<char>, prefix: Seq<char>) -> bool {
    s.len() >= prefix.len() && s.take(prefix.len() as int) == prefix
}

/// Index of the first character from position `i` on that ends a metric
/// name in a sample line: `{` or whitespace.
pub open spec fn spec_find_name_end(line: Seq<char>, i: int) -> Option<int>
    decreases line.len() - i,
    when 0 <= i
{
    if i >= line.len() {
        None
    } else if line[i] == '{' || spec_is_ws(line[i]) {
        Some(i)
    } else {
        spec_find_name_end(line, i + 1)
    }
}

/// Index of the first whitespace character from position `i` on.
pub open spec fn spec_find_ws(s: Seq<char>, i: int) -> Option<int>
    decreases s.len() - i,
    when 0 <= i
{
    if i >= s.len() {
        None
    } else if spec_is_ws(s[i]) {
        Some(i)
    } else {
        spec_find_ws(s, i + 1)
    }
}

/// The metric kind named by a kind token.
pub open spec fn spec_kind_of_token(t: Seq<char>) -> MetricKind {
    if t == "counter"@ {
        MetricKind::Counter
    } else if t == "gauge"@ {
        MetricKind::Gauge
    } else if t == "histogram"@ {
        MetricKind::Histogram
    } else if t == "info"@ {
        MetricKind::Info
    } else {
        MetricKind::Unknown
    }
}

/// The sequence with leading whitespace removed.
pub open spec fn spec_trim_start(s: Seq<char>) -> Seq<char>
    decreases s.len(),
{
    if s.len() > 0 && spec_is_ws(s[0]) {
        spec_trim_start(s.skip(1))
    } else {
        s
    }
}

/// The sequence with trailing whitespace removed.
pub open spec fn spec_trim_end(s: Seq<char>) -> Seq<char>
    decreases s.len(),
{
    if s.len() > 0 && spec_is_ws(s.last()) {
        spec_trim_end(s.drop_last())
    } else {
        s
    }
}

/// The sequence with whitespace removed from both ends.
pub open spec fn spec_trim_ws(s: Seq<char>) -> Seq<char> {
    spec_trim_end(spec_trim_start(s))
}

/// Parses the part of a `# TYPE` line after the prefix, with surrounding
/// whitespace trimmed: the metric name, then whitespace, then the kind
/// token.
pub open spec fn spec_parse_type_def(rest: Seq<char>) -> Option<TypeDefModel> {
    let trimmed = spec_trim_ws(rest);
    match spec_find_ws(trimmed, 0) {
        None => None,
        Some(j) => Some(
            TypeDefModel {
                name: trimmed.take(j),
                kind: spec_kind_of_token(trimmed.skip(j + 1)),
            },
        ),
    }
}

/// Processes one complete line: the translated form of the line is
/// appended to the output, the buffered line is cleared, and `# TYPE`
/// declarations update the remembered metric definition. `None` reports a
/// malformed line.
pub open spec fn spec_line_result(st: TransState, line: Seq<char>) -> Option<TransState> {
    let cleared = TransState { pending: Seq::<char>::empty(), ..st };
    if st.remove_eof && line == "# EOF"@ {
        Some(cleared)
    } else if spec_starts_with(line, "# TYPE "@) {
        match spec_parse_type_def(line.skip("# TYPE "@.len() as int)) {
            None => None,
            Some(def) => {
                let out_line = if st.translate_info && def.kind == MetricKind::Info {
                    "# TYPE "@ + def.name + " gauge"@
                } else {
                    line
                };
                Some(
                    TransState {
                        last_def: Some(def),
                        out: st.out + out_line + seq!['\n'],
                        ..cleared
                    },
                )
            },
        }
    } else if !spec_starts_with(line, "#"@) {
        match spec_find_name_end(line, 0) {
            None => None,
            Some(p) => {
                let name = line.take(p);
                let rest = line.skip(p);
                let out_line = match st.last_def {
                    Some(def) => {
                        if def.kind == MetricKind::Counter && name == def.name + "_total"@ {
                            def.name + rest
                        } else if def.kind == MetricKind::Info && name == def.name + "_info"@ {
                            def.name + rest
                        } else {
                            line
                        }
                    },
                    None => line,
                };
                Some(TransState { out: st.out + out_line + seq!['\n'], ..cleared })
            },
        }
    } else {
        Some(TransState { out: st.out + line + seq!['\n'], ..cleared })
    }
}

/// A buffered line with one trailing carriage return removed, so that
/// CRLF-terminated input translates like LF-terminated input.
pub open spec fn spec_strip_cr(s: Seq<char>) -> Seq<char> {
    if s.len() > 0 && s.last() == '\r' {
        s.drop_last()
    } else {
        s
    }
}

/// Processing a line depends only on the configuration, remembered
/// declaration and output of a state, never on its buffered text.
pub proof fn lemma_line_result_ignores_pending(st1: TransState, st2: TransState, line: Seq<char>)
    requires
        st1.remove_eof == st2.remove_eof,
        st1.translate_info == st2.translate_info,
        st1.last_def == st2.last_def,
        st1.out == st2.out,
    ensures
        spec_line_result(st1, line) == spec_line_result(st2, line),
{
    match spec_line_result(st1, line) {
        Some(r1) => {
            assert(spec_line_result(st2, line) matches Some(r2) && r1 =~~= r2);
        },
        None => {},
    }
}

/// Feeds one character: a newline completes the buffered line (less one
/// trailing carriage return), any other character extends it.
pub open spec fn spec_step(st: TransState, c: char) -> Option<TransState> {
    if c == '\n' {
        spec_line_result(st, spec_strip_cr(st.pending))
    } else {
        Some(TransState { pending: st.pending.push(c), ..st })
    }
}

/// Feeds a chunk of text character by character.
pub open spec fn spec_feed(st: TransState, text: Seq<char>) -> Option<TransState>
    decreases text.len(),
{
    if text.len() == 0 {
        Some(st)
    } else {
        match spec_step(st, text[0]) {
            None => None,
            Some(st2) => spec_feed(st2, text.skip(1)),
        }
    }
}

/// Completes translation: a buffered partial final line is processed
/// exactly once.
pub open spec fn spec_flush(st: TransState) -> Option<TransState> {
    if st.pending.len() == 0 {
        Some(st)
    } else {
        spec_line_result(st, st.pending)
    }
}

/// The initial translator state.
pub open spec fn spec_init_state(remove_eof: bool, translate_info: bool) -> TransState {
    TransState {
        remove_eof,
        translate_info,
        last_def: None,
        out: Seq::<char>::empty(),
        pending: Seq::<char>::empty(),
    }
}

/// The full translation of `text`, delivered in one chunk and flushed.
pub open spec fn spec_translate_text(text: Seq<char>, remove_eof: bool, translate_info: bool) -> Option<
    Seq<char>,
> {
    match spec_feed(spec_init_state(remove_eof, translate_info), text) {
        None => None,
        Some(st) => match spec_flush(st) {
            None => None,
            Some(st2) => Some(st2.out),
        },
    }
}

proof fn lemma_trim_start_at(s: Seq<char>, a: int, i: int)
    requires
        0 <= i <= a <= s.len(),
        forall|k: int| 0 <= k < a ==> spec_is_ws(#[trigger] s[k]),
        a < s.len() ==> !spec_is_ws(s[a]),
    ensures
        spec_trim_start(s.skip(i)) == s.skip(a),
    decreases a - i,
{
    if i < a {
        assert(spec_is_ws(s.skip(i)[0]));
        assert(s.skip(i).skip(1) =~= s.skip(i + 1));
        lemma_trim_start_at(s, a, i + 1);
    } else {
        if a < s.len() {
            assert(!spec_is_ws(s.skip(a)[0]));
        } else {
            assert(s.skip(a).len() == 0);
        }
    }
}

proof fn lemma_trim_end_at(s: Seq<char>, b: int, i: int)
    requires
        0 <= b <= i <= s.len(),
        forall|k: int| b <= k < s.len() ==> spec_is_ws(#[trigger] s[k]),
        b > 0 ==> !spec_is_ws(s[b - 1]),
    ensures
        spec_trim_end(s.take(i)) == s.take(b),
    decreases i - b,
{
    if b < i {
        assert(spec_is_ws(s.take(i).last()));
        assert(s.take(i).drop_last() =~= s.take(i - 1));
        lemma_trim_end_at(s, b, i - 1);
    } else {
        if b > 0 {
            assert(!spec_is_ws(s.take(b).last()));
        } else {
            assert(s.take(b).len() == 0);
        }
    }
}

/// Trims ASCII whitespace from both ends.
fn trim_ws(s: &str) -> (r: &str)
    ensures
        r@ == spec_trim_ws(s@),
{
    let n = s.unicode_len();
    let mut a: usize = 0;
    while a < n && is_ws_char(s.get_char(a))
        invariant
            n == s@.len(),
            0 <= a <= n,
            forall|k: int| 0 <= k < a ==> spec_is_ws(#[trigger] s@[k]),
        decreases n - a,
    {
        a += 1;
    }
    proof {
        lemma_trim_start_at(s@, a as int, 0);
        assert(s@.skip(0) =~= s@);
    }
    let mut b: usize = n;
    while b > a && is_ws_char(s.get_char(b - 1))
        invariant
            n == s@.len(),
            0 <= a <= b <= n,
            forall|k: int| b <= k < n ==> spec_is_ws(#[trigger] s@[k]),
        decreases b,
    {
        b -= 1;
    }
    let r = s.substring_char(a, b);
    proof {
        let middle = s@.skip(a as int);
        if b > a {
            assert(!spec_is_ws(s@[b - 1]));
        }
        assert forall|k: int| b - a <= k < middle.len() implies spec_is_ws(
            #[trigger] middle[k],
        ) by {
            assert(middle[k] == s@[k + a]);
        }
        if b - a > 0 {
            assert(!spec_is_ws(middle[b - a - 1]));
        }
        lemma_trim_end_at(middle, b - a as int, middle.len() as int);
        assert(middle.take(middle.len() as int) =~= middle);
        assert(r@ =~= middle.take(b - a as int));
    }
    r
}

/// Whether `s` starts with `prefix`.
pub fn str_starts_with(s: &str, prefix: &str) -> (r: bool)
    ensures
        r == spec_starts_with(s@, prefix@),
{
    let plen = prefix.unicode_len();
    let slen = s.unicode_len();
    if slen < plen {
        return false;
    }
    let mut i: usize = 0;
    while i < plen
        invariant
            plen == prefix@.len(),
            slen == s@.len(),
            slen >= plen,
            0 <= i <= plen,
            forall|j: int| 0 <= j < i ==> s@[j] == prefix@[j],
        decreases plen - i,
    {
        if s.get_char(i) != prefix.get_char(i) {
            proof {
                assert(s@.take(plen as int)[i as int] != prefix@[i as int]);
            }
            return false;
        }
        i += 1;
    }
    proof {
        assert(s@.take(plen as int) =~= prefix@);
    }
    true
}

fn is_ws_char(c: char) -> (r: bool)
    ensures
        r == spec_is_ws(c),
{
    c == ' ' || c == '\t' || c == '\n' || c == '\r' || c == '\x0C'
}

/// Finds the end of the metric name in a sample line.
fn find_name_end(line: &str) -> (r: Option<usize>)
    ensures
        match r {
            Some(p) => Some(p as int) == spec_find_name_end(line@, 0) && 0 <= p < line@.len(),
            None => spec_find_name_end(line@, 0) is None,
        },
{
    let n = line.unicode_len();
    let mut i: usize = 0;
    while i < n
        invariant
            n == line@.len(),
            0 <= i <= n,
            spec_find_name_end(line@, 0) == spec_find_name_end(line@, i as int),
        decreases n - i,
    {
        let c = line.get_char(i);
        if c == '{' || is_ws_char(c) {
            return Some(i);
        }
        i += 1;
    }
    None
}

/// Finds the first whitespace character.
fn find_ws(s: &str) -> (r: Option<usize>)
    ensures
        match r {
            Some(p) => Some(p as int) == spec_find_ws(s@, 0) && 0 <= p < s@.len(),
            None => spec_find_ws(s@, 0) is None,
        },
{
    let n = s.unicode_len();
    let mut i: usize = 0;
    while i < n
        invariant
            n == s@.len(),
            0 <= i <= n,
            spec_find_ws(s@, 0) == spec_find_ws(s@, i as int),
        decreases n - i,
    {
        if is_ws_char(s.get_char(i)) {
            return Some(i);
        }
        i += 1;
    }
    None
}

/// Streaming translator from the strict exposition format to the
/// Prometheus-compatible dialects. Input may arrive in arbitrary chunks;
/// [`PrometheusWrapper::finish`] flushes the buffered final line.
pub struct PrometheusWrapper {
    out: String,
    remove_eof: bool,
    translate_info: bool,
    last_def: Option<(String, MetricKind)>,
    last_line: String,
}

impl PrometheusWrapper {
    /// The abstract translator state.
    pub closed spec fn st(&self) -> TransState {
        TransState {
            remove_eof: self.remove_eof,
            translate_info: self.translate_info,
            last_def: match self.last_def {
                Some((ref n, k)) => Some(TypeDefModel { name: n@, kind: k }),
                None => None,
            },
            out: self.out@,
            pending: self.last_line@,
        }
    }

    /// Creates a translator that passes text through unchanged.
    pub fn new() -> (r: Self)
        ensures
            r.st() == spec_init_state(false, false),
    {
        let r = PrometheusWrapper {
            out: String::new(),
            remove_eof: false,
            translate_info: false,
            last_def: None,
            last_line: String::new(),
        };
        proof {
            assert(r.st() =~~= spec_init_state(false, false));
        }
        r
    }

    /// Configures the translator to drop the `# EOF` terminator line.
    pub fn remove_eof_terminator(&mut self)
        ensures
            final(self).st() == (TransState { remove_eof: true, ..old(self).st() }),
    {
        self.remove_eof = true;
    }

    /// Configures the translator to rewrite the declared kind of info
    /// metrics to `gauge`.
    pub fn translate_info_metrics_type(&mut self)
        ensures
            final(self).st() == (TransState { translate_info: true, ..old(self).st() }),
    {
        self.translate_info = true;
    }

    /// Processes the buffered line.
    fn handle_line(&mut self) -> (r: Result<(), FormatError>)
        ensures
            r is Ok <==> spec_line_result(old(self).st(), old(self).st().pending) is Some,
            r is Ok ==> Some(final(self).st()) == spec_line_result(
                old(self).st(),
                old(self).st().pending,
            ),
    {
        let line = self.last_line.clone();
        self.last_line = String::new();
        let ghost st0 = old(self).st();
        let ghost lineview = line@;
        proof {
            reveal_strlit("# EOF");
            reveal_strlit("# TYPE ");
            reveal_strlit("#");
            reveal_strlit("\n");
            reveal_strlit(" gauge");
            reveal_strlit("_total");
            reveal_strlit("_info");
        }
        if self.remove_eof && crate::text::str_eq(line.as_str(), "# EOF") {
            proof {
                assert(self.st() =~~= spec_line_result(st0, lineview).unwrap());
            }
            return Ok(());
        }
        if str_starts_with(line.as_str(), "# TYPE ") {
            let raw_rest = line.as_str().substring_char(7, line.as_str().unicode_len());
            proof {
                assert(raw_rest@ =~= lineview.skip(7));
            }
            let rest = trim_ws(raw_rest);
            match find_ws(rest) {
                None => {
                    return Err(FormatError);
                },
                Some(j) => {
                    let rest_len = rest.unicode_len();
                    let name = rest.substring_char(0, j).to_owned();
                    let token = rest.substring_char(j + 1, rest_len);
                    proof {
                        reveal_strlit("counter");
                        reveal_strlit("gauge");
                        reveal_strlit("histogram");
                        reveal_strlit("info");
                        assert(name@ =~= rest@.take(j as int));
                        assert(token@ =~= rest@.skip(j + 1));
                    }
                    let kind = if crate::text::str_eq(token, "counter") {
                        MetricKind::Counter
                    } else if crate::text::str_eq(token, "gauge") {
                        MetricKind::Gauge
                    } else if crate::text::str_eq(token, "histogram") {
                        MetricKind::Histogram
                    } else if crate::text::str_eq(token, "info") {
                        MetricKind::Info
                    } else {
                        MetricKind::Unknown
                    };
                    if self.translate_info && matches!(kind, MetricKind::Info) {
                        self.out.append("# TYPE ");
                        self.out.append(name.as_str());
                        self.out.append(" gauge");
                        self.out.append("\n");
                    } else {
                        self.out.append(line.as_str());
                        self.out.append("\n");
                    }
                    self.last_def = Some((name, kind));
                    proof {
                        assert(self.st() =~~= spec_line_result(st0, lineview).unwrap());
                    }
                    return Ok(());
                },
            }
        }
        if !str_starts_with(line.as_str(), "#") {
            match find_name_end(line.as_str()) {
                None => {
                    return Err(FormatError);
                },
                Some(p) => {
                    let name = line.as_str().substring_char(0, p);
                    let rest = line.as_str().substring_char(p, line.as_str().unicode_len());
                    proof {
                        assert(name@ =~= lineview.take(p as int));
                        assert(rest@ =~= lineview.skip(p as int));
                    }
                    let mut stripped: Option<&str> = None;
                    match &self.last_def {
                        Some((def_name, def_kind)) => {
                            let suffix: &str = match def_kind {
                                MetricKind::Counter => "_total",
                                MetricKind::Info => "_info",
                                _ => "",
                            };
                            let is_suffixed = matches!(
                                def_kind,
                                MetricKind::Counter | MetricKind::Info,
                            );
                            if is_suffixed {
                                let mut expected = def_name.clone();
                                expected.append(suffix);
                                if crate::text::str_eq(name, expected.as_str()) {
                                    stripped = Some(def_name.as_str());
                                }
                            }
                        },
                        None => {},
                    }
                    match stripped {
                        Some(base) => {
                            self.out.append(base);
                            self.out.append(rest);
                            self.out.append("\n");
                        },
                        None => {
                            self.out.append(line.as_str());
                            self.out.append("\n");
                        },
                    }
                    proof {
                        assert(self.st() =~~= spec_line_result(st0, lineview).unwrap());
                    }
                    return Ok(());
                },
            }
        }
        self.out.append(line.as_str());
        self.out.append("\n");
        proof {
            assert(self.st() =~~= spec_line_result(st0, lineview).unwrap());
        }
        Ok(())
    }

    /// Feeds a chunk of text; logical lines may span multiple chunks.
    pub fn write_str(&mut self, s: &str) -> (r: Result<(), FormatError>)
        ensures
            r is Ok <==> spec_feed(old(self).st(), s@) is Some,
            r is Ok ==> Some(final(self).st()) == spec_feed(old(self).st(), s@),
    {
        let n = s.unicode_len();
        let mut i: usize = 0;
        let ghost st0 = old(self).st();
        proof {
            assert(s@.skip(0) =~= s@);
        }
        while i < n
            invariant
                st0 == old(self).st(),
                n == s@.len(),
                0 <= i <= n,
                spec_feed(st0, s@) == spec_feed(self.st(), s@.skip(i as int)),
            decreases n - i,
        {
            let ghost st_before = self.st();
            let c = s.get_char(i);
            proof {
                assert(s@.skip(i as int)[0] == c);
                assert(s@.skip(i as int).skip(1) =~= s@.skip(i + 1));
            }
            if c == '\n' {
                // Drop one carriage return preceding the newline, so that
                // CRLF-terminated lines translate like LF-terminated ones.
                let line_len = self.last_line.as_str().unicode_len();
                if line_len > 0 && self.last_line.as_str().get_char(line_len - 1) == '\r' {
                    let stripped = self.last_line.as_str().substring_char(
                        0,
                        line_len - 1,
                    ).to_owned();
                    proof {
                        assert(stripped@ =~= st_before.pending.drop_last());
                    }
                    self.last_line = stripped;
                }
                let ghost st_mid = self.st();
                proof {
                    assert(st_mid.pending == spec_strip_cr(st_before.pending));
                    lemma_line_result_ignores_pending(
                        st_mid,
                        st_before,
                        spec_strip_cr(st_before.pending),
                    );
                }
                let res = self.handle_line();
                if res.is_err() {
                    proof {
                        assert(spec_step(st_before, c) is None);
                        assert(spec_feed(st_before, s@.skip(i as int)) is None);
                        assert(spec_feed(st0, s@) is None);
                    }
                    return Err(FormatError);
                }
                proof {
                    assert(Some(self.st()) == spec_step(st_before, c));
                }
            } else {
                push_char(&mut self.last_line, c);
                proof {
                    assert(self.st() =~~= spec_step(st_before, c).unwrap());
                }
            }
            i += 1;
        }
        proof {
            assert(s@.skip(n as int) =~= Seq::<char>::empty());
        }
        Ok(())
    }

    /// Flushes the buffered final line and returns the translated text.
    pub fn finish(self) -> (r: Result<String, FormatError>)
        ensures
            r is Ok <==> spec_flush(self.st()) is Some,
            r matches Ok(out) ==> Some(out@) == match spec_flush(self.st()) {
                Some(st) => Some(st.out),
                None => None,
            },
    {
        let mut this = self;
        if this.last_line.as_str().unicode_len() == 0 {
            return Ok(this.out);
        }
        let res = this.handle_line();
        if res.is_err() {
            return Err(FormatError);
        }
        Ok(this.out)
    }
}

} // verus!
