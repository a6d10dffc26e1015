//! Metric descriptors and the streaming text exposition encoder.

use vstd::prelude::*;
use vstd::string::*;
use crate::text::strings_view;

verus! {

/// Unit of a metric, rendered as a fixed suffix of the metric name.
#[derive(Clone, Copy, Debug, PartialEq, Eq, Structural)]
pub enum Unit {
    Bytes,
    Celsius,
    Hertz,
    Info,
    Unitless,
    Packets,
    Seconds,
}

impl Unit {
    pub open spec fn suffix(self) -> Seq<char> {
        match self {
            Unit::Bytes => "_bytes"@,
            Unit::Celsius => "_celsius"@,
            Unit::Hertz => "_hertz"@,
            Unit::Info => "_info"@,
            Unit::Unitless => Seq::empty(),
            Unit::Packets => "_packets"@,
            Unit::Seconds => "_seconds"@,
        }
    }

    pub fn as_suffix(&self) -> (r: &'static str)
        ensures
            r@ == self.suffix(),
    {
        match self {
            Unit::Bytes => "_bytes",
            Unit::Celsius => "_celsius",
            Unit::Hertz => "_hertz",
            Unit::Info => "_info",
            Unit::Unitless => {
                proof {
                    reveal_strlit("");
                }
                ""
            },
            Unit::Packets => "_packets",
            Unit::Seconds => "_seconds",
        }
    }
}

/// Kind of a metric: a monotonic counter or an instantaneous gauge.
#[derive(Clone, Copy, Debug, PartialEq, Eq, Structural)]
pub enum Type {
    Counter,
    Gauge,
}

impl Type {
    pub open spec fn suffix(self) -> Seq<char> {
        match self {
            Type::Counter => "_total"@,
            Type::Gauge => Seq::empty(),
        }
    }

    pub open spec fn text(self) -> Seq<char> {
        match self {
            Type::Counter => "counter"@,
            Type::Gauge => "gauge"@,
        }
    }

    pub fn as_suffix(&self) -> (r: &'static str)
        ensures
            r@ == self.suffix(),
    {
        match self {
            Type::Counter => "_total",
            Type::Gauge => {
                proof {
                    reveal_strlit("");
                }
                ""
            },
        }
    }

    pub fn as_str(&self) -> (r: &'static str)
        ensures
            r@ == self.text(),
    {
        match self {
            Type::Counter => "counter",
            Type::Gauge => "gauge",
        }
    }
}

/// Immutable description of one metric family. Every sample written for it
/// carries exactly one label value per entry of `label_keys`.
pub struct Info {
    pub subsys: &'static str,
    pub name: &'static str,
    pub help: &'static str,
    pub unit: Unit,
    pub ty: Type,
    pub label_keys: Vec<&'static str>,
}

/// The full name of a metric: `{namespace}_{subsystem}_{name}{unit}{type}`.
pub open spec fn metric_name(
    namespace: Seq<char>,
    subsys: Seq<char>,
    name: Seq<char>,
    unit: Unit,
    ty: Type,
) -> Seq<char> {
    namespace + seq!['_'] + subsys + seq!['_'] + name + unit.suffix() + ty.suffix()
}

pub open spec fn info_name(namespace: Seq<char>, info: Info) -> Seq<char> {
    metric_name(namespace, info.subsys@, info.name@, info.unit, info.ty)
}

/// The HELP and TYPE lines that open a metric family.
pub open spec fn header_text(name: Seq<char>, help: Seq<char>, ty: Type) -> Seq<char> {
    "# HELP "@ + name + seq![' '] + help + seq!['\n'] + "# TYPE "@ + name + seq![' '] + ty.text()
        + seq!['\n']
}

/// Escaped form of one character of a label value.
pub open spec fn escape_char(c: char) -> Seq<char> {
    if c == '\\' {
        seq!['\\', '\\']
    } else if c == '"' {
        seq!['\\', '"']
    } else if c == '\n' {
        seq!['\\', 'n']
    } else {
        seq![c]
    }
}

/// Escaped form of a label value: backslash, quote and newline are
/// written as two-character escapes, everything else verbatim.
pub open spec fn escape(s: Seq<char>) -> Seq<char>
    decreases s.len(),
{
    if s.len() == 0 {
        Seq::empty()
    } else {
        escape_char(s[0]) + escape(s.drop_first())
    }
}

/// Inverse of `escape`: a backslash takes the next character literally,
/// except `n`, which stands for a newline.
pub open spec fn unescape(t: Seq<char>) -> Seq<char>
    decreases t.len(),
{
    if t.len() == 0 {
        Seq::empty()
    } else if t[0] == '\\' && t.len() >= 2 {
        seq![if t[1] == 'n' { '\n' } else { t[1] }] + unescape(t.subrange(2, t.len() as int))
    } else {
        seq![t[0]] + unescape(t.drop_first())
    }
}

pub proof fn lemma_escape_concat(a: Seq<char>, b: Seq<char>)
    ensures
        escape(a + b) == escape(a) + escape(b),
    decreases a.len(),
{
    if a.len() == 0 {
        assert(a + b =~= b);
    } else {
        assert((a + b).drop_first() =~= a.drop_first() + b);
        lemma_escape_concat(a.drop_first(), b);
        assert(escape(a) + escape(b) =~= escape_char(a[0]) + (escape(a.drop_first()) + escape(b)));
    }
}

pub proof fn lemma_escape_push(s: Seq<char>, c: char)
    ensures
        escape(s.push(c)) == escape(s) + escape_char(c),
{
    lemma_escape_concat(s, seq![c]);
    assert(s.push(c) =~= s + seq![c]);
    assert(seq![c].drop_first() =~= Seq::<char>::empty());
    assert(escape(seq![c]) == escape_char(c) + escape(Seq::<char>::empty()));
    assert(escape_char(c) + Seq::<char>::empty() =~= escape_char(c));
}

/// Unescaping an escaped label value gives back the value itself.
pub proof fn lemma_unescape_escape(s: Seq<char>)
    ensures
        unescape(escape(s)) == s,
    decreases s.len(),
{
    if s.len() > 0 {
        let rest = s.drop_first();
        lemma_unescape_escape(rest);
        let e = escape(s);
        let c = s[0];
        assert(e == escape_char(c) + escape(rest));
        if c == '\\' || c == '"' || c == '\n' {
            assert(e.subrange(2, e.len() as int) =~= escape(rest));
        } else {
            assert(e.drop_first() =~= escape(rest));
        }
        assert(s =~= seq![c] + rest);
    }
}

/// Decimal digit character of `d < 10`.
pub open spec fn digit(d: nat) -> char {
    if d == 0 { '0' }
    else if d == 1 { '1' }
    else if d == 2 { '2' }
    else if d == 3 { '3' }
    else if d == 4 { '4' }
    else if d == 5 { '5' }
    else if d == 6 { '6' }
    else if d == 7 { '7' }
    else if d == 8 { '8' }
    else { '9' }
}

/// Decimal text of a natural number, without leading zeros.
pub open spec fn dec(n: nat) -> Seq<char>
    decreases n,
{
    if n < 10 {
        seq![digit(n)]
    } else {
        dec(n / 10).push(digit(n % 10))
    }
}

/// Fractional digits of `r / 1000` for `0 < r < 1000`, trailing zeros removed.
pub open spec fn frac_text(r: nat) -> Seq<char> {
    let d1 = r / 100;
    let d2 = (r / 10) % 10;
    let d3 = r % 10;
    if r % 100 == 0 {
        seq![digit(d1)]
    } else if r % 10 == 0 {
        seq![digit(d1), digit(d2)]
    } else {
        seq![digit(d1), digit(d2), digit(d3)]
    }
}

/// The numeric value of a sample: an integer, or a count of thousandths.
#[derive(Clone, Copy, Debug, PartialEq, Eq, Structural)]
pub enum SampleValue {
    Int(u64),
    Milli(u64),
}

pub open spec fn value_text(v: SampleValue) -> Seq<char> {
    match v {
        SampleValue::Int(n) => dec(n as nat),
        SampleValue::Milli(m) => if m % 1000 == 0 {
            dec((m / 1000) as nat)
        } else {
            dec((m / 1000) as nat) + seq!['.'] + frac_text((m % 1000) as nat)
        },
    }
}

/// `key="escaped value"` for label `i`.
pub open spec fn label_pair(keys: Seq<&str>, vals: Seq<Seq<char>>, i: int) -> Seq<char> {
    keys[i]@ + seq!['=', '"'] + escape(vals[i]) + seq!['"']
}

/// The first `n` label pairs, separated by commas.
pub open spec fn label_pairs(keys: Seq<&str>, vals: Seq<Seq<char>>, n: int) -> Seq<char>
    decreases n,
{
    if n <= 0 {
        Seq::empty()
    } else if n == 1 {
        label_pair(keys, vals, 0)
    } else {
        label_pairs(keys, vals, n - 1) + seq![','] + label_pair(keys, vals, n - 1)
    }
}

/// The label block of a sample; absent when the metric has no labels.
pub open spec fn labels_text(keys: Seq<&str>, vals: Seq<Seq<char>>) -> Seq<char> {
    if keys.len() == 0 {
        Seq::empty()
    } else {
        seq!['{'] + label_pairs(keys, vals, keys.len() as int) + seq!['}']
    }
}

/// One sample line; the timestamp is written only when positive.
pub open spec fn sample_text(
    name: Seq<char>,
    keys: Seq<&str>,
    vals: Seq<Seq<char>>,
    value: SampleValue,
    timestamp: u64,
) -> Seq<char> {
    name + labels_text(keys, vals) + seq![' '] + value_text(value) + if timestamp > 0 {
        seq![' '] + dec(timestamp as nat) + seq!['\n']
    } else {
        seq!['\n']
    }
}

/// A sample to be written: its label values, in key order, and its value.
pub ghost struct RowModel {
    pub labels: Seq<Seq<char>>,
    pub value: SampleValue,
}

/// The sample lines of `rows`, in order.
pub open spec fn rows_text(
    name: Seq<char>,
    keys: Seq<&str>,
    rows: Seq<RowModel>,
    timestamp: u64,
) -> Seq<char>
    decreases rows.len(),
{
    if rows.len() == 0 {
        Seq::empty()
    } else {
        rows_text(name, keys, rows.drop_last(), timestamp) + sample_text(
            name,
            keys,
            rows.last().labels,
            rows.last().value,
            timestamp,
        )
    }
}

/// What a metric family adds to the document: nothing without samples;
/// otherwise its HELP and TYPE lines, then one line per sample.
#[verifier::opaque]
pub open spec fn family_text(
    namespace: Seq<char>,
    info: Info,
    rows: Seq<RowModel>,
    timestamp: u64,
) -> Seq<char> {
    if rows.len() == 0 {
        Seq::empty()
    } else {
        let name = info_name(namespace, info);
        header_text(name, info.help@, info.ty) + rows_text(name, info.label_keys@, rows, timestamp)
    }
}

fn digit_str(d: u64) -> (r: &'static str)
    requires
        d < 10,
    ensures
        r@ == seq![digit(d as nat)],
{
    proof {
        reveal_strlit("0");
        reveal_strlit("1");
        reveal_strlit("2");
        reveal_strlit("3");
        reveal_strlit("4");
        reveal_strlit("5");
        reveal_strlit("6");
        reveal_strlit("7");
        reveal_strlit("8");
        reveal_strlit("9");
    }
    if d == 0 { "0" }
    else if d == 1 { "1" }
    else if d == 2 { "2" }
    else if d == 3 { "3" }
    else if d == 4 { "4" }
    else if d == 5 { "5" }
    else if d == 6 { "6" }
    else if d == 7 { "7" }
    else if d == 8 { "8" }
    else { "9" }
}

/// Appends the decimal text of `n`.
pub fn push_dec(out: &mut String, n: u64)
    ensures
        final(out)@ == old(out)@ + dec(n as nat),
    decreases n,
{
    if n < 10 {
        out.append(digit_str(n));
    } else {
        push_dec(out, n / 10);
        out.append(digit_str(n % 10));
        proof {
            assert(dec(n as nat) == dec((n / 10) as nat).push(digit((n % 10) as nat)));
        }
    }
}

/// Appends the text of a sample value.
pub fn push_value(out: &mut String, v: SampleValue)
    ensures
        final(out)@ == old(out)@ + value_text(v),
{
    match v {
        SampleValue::Int(n) => push_dec(out, n),
        SampleValue::Milli(m) => {
            push_dec(out, m / 1000);
            let r = m % 1000;
            if r != 0 {
                proof {
                    reveal_strlit(".");
                }
                out.append(".");
                out.append(digit_str(r / 100));
                if r % 100 != 0 {
                    out.append(digit_str((r / 10) % 10));
                    if r % 10 != 0 {
                        out.append(digit_str(r % 10));
                    }
                }
            }
        },
    }
}

/// Appends the escaped form of a label value.
pub fn push_escaped(out: &mut String, s: &str)
    ensures
        final(out)@ == old(out)@ + escape(s@),
{
    let n = s.unicode_len();
    let ghost start = out@;
    proof {
        assert(s@.subrange(0, 0) =~= Seq::<char>::empty());
    }
    let mut i: usize = 0;
    while i < n
        invariant
            n == s@.len(),
            i <= n,
            out@ == start + escape(s@.subrange(0, i as int)),
        decreases n - i,
    {
        let c = s.get_char(i);
        proof {
            reveal_strlit("\\\\");
            reveal_strlit("\\\"");
            reveal_strlit("\\n");
        }
        if c == '\\' {
            out.append("\\\\");
        } else if c == '"' {
            out.append("\\\"");
        } else if c == '\n' {
            out.append("\\n");
        } else {
            let one = s.substring_char(i, i + 1);
            assert(one@ =~= seq![c]);
            out.append(one);
        }
        proof {
            lemma_escape_push(s@.subrange(0, i as int), c);
            assert(s@.subrange(0, i + 1) =~= s@.subrange(0, i as int).push(c));
        }
        i = i + 1;
    }
    proof {
        assert(s@.subrange(0, n as int) =~= s@);
    }
}

/// Escapes a label value.
pub fn escape_label_value(s: &str) -> (r: String)
    ensures
        r@ == escape(s@),
{
    let mut out = String::new();
    push_escaped(&mut out, s);
    out
}

/// Reverses `escape_label_value`.
pub fn unescape_label_value(t: &str) -> (r: String)
    ensures
        r@ == unescape(t@),
{
    let n = t.unicode_len();
    let mut out = String::new();
    let mut i: usize = 0;
    proof {
        assert(t@.subrange(0, n as int) =~= t@);
    }
    while i < n
        invariant
            n == t@.len(),
            i <= n,
            out@ + unescape(t@.subrange(i as int, n as int)) == unescape(t@),
        decreases n - i,
    {
        let ghost rest = t@.subrange(i as int, n as int);
        let c = t.get_char(i);
        proof {
            reveal_strlit("\n");
        }
        if c == '\\' && i + 1 < n {
            let d = t.get_char(i + 1);
            if d == 'n' {
                out.append("\n");
            } else {
                let one = t.substring_char(i + 1, i + 2);
                assert(one@ =~= seq![d]);
                out.append(one);
            }
            proof {
                assert(rest.subrange(2, rest.len() as int) =~= t@.subrange(i + 2, n as int));
                assert(rest[0] == c && rest[1] == d);
                assert(unescape(rest) == seq![if d == 'n' { '\n' } else { d }] + unescape(
                    t@.subrange(i + 2, n as int),
                ));
            }
            i = i + 2;
        } else {
            let one = t.substring_char(i, i + 1);
            proof {
                assert(one@ =~= seq![c]);
                assert(rest.drop_first() =~= t@.subrange(i + 1, n as int));
                assert(rest[0] == c);
                assert(unescape(rest) == seq![c] + unescape(t@.subrange(i + 1, n as int)));
            }
            out.append(one);
            i = i + 1;
        }
    }
    proof {
        assert(t@.subrange(n as int, n as int) =~= Seq::<char>::empty());
        assert(out@ + Seq::<char>::empty() =~= out@);
    }
    out
}

/// Writer of the exposition document. Samples are written through the
/// writer of their family (`with_info`), which opens the family with its
/// HELP and TYPE lines at its first sample.
pub struct Encoder {
    pub buf: String,
    pub namespace: String,
}

/// Writer of the samples of one metric family, made by `Encoder::with_info`.
pub struct MetricEncoder<'a> {
    pub name: String,
    pub info: &'a Info,
    pub timestamp: u64,
    pub started: bool,
}

/// Builds the full name of the metric that `info` describes.
pub fn build_name(namespace: &str, info: &Info) -> (r: String)
    ensures
        r@ == info_name(namespace@, *info),
{
    proof {
        reveal_strlit("_");
    }
    let mut name = String::from_str(namespace);
    name.append("_");
    name.append(info.subsys);
    name.append("_");
    name.append(info.name);
    name.append(info.unit.as_suffix());
    name.append(info.ty.as_suffix());
    name
}

impl Encoder {
    pub fn new(namespace: &str) -> (r: Encoder)
        ensures
            r.buf@ == Seq::<char>::empty(),
            r.namespace@ == namespace@,
    {
        Encoder { buf: String::new(), namespace: String::from_str(namespace) }
    }

    /// The document written so far.
    pub fn as_str(&self) -> (r: &str)
        ensures
            r@ == self.buf@,
    {
        self.buf.as_str()
    }

    pub fn into_string(self) -> (r: String)
        ensures
            r@ == self.buf@,
    {
        self.buf
    }

    /// The writer of the samples of the family that `info` describes. A
    /// timestamp is in milliseconds since the epoch.
    pub fn with_info<'a>(&self, info: &'a Info, timestamp: Option<u64>) -> (m: MetricEncoder<'a>)
        ensures
            m.name@ == info_name(self.namespace@, *info),
            m.info == info,
            m.timestamp == timestamp.unwrap_or(0),
            !m.started,
    {
        MetricEncoder::new(self.namespace.as_str(), info, timestamp)
    }

    /// Writes a label-less metric: its HELP and TYPE lines and one sample.
    pub fn write(&mut self, info: &Info, value: SampleValue, timestamp: Option<u64>)
        requires
            info.label_keys@.len() == 0,
        ensures
            final(self).namespace@ == old(self).namespace@,
            final(self).buf@ == old(self).buf@ + family_text(
                old(self).namespace@,
                *info,
                seq![RowModel { labels: Seq::empty(), value }],
                timestamp.unwrap_or(0),
            ),
    {
        let mut menc = self.with_info(info, timestamp);
        let vals: Vec<String> = Vec::new();
        proof {
            assert(strings_view(vals@) =~= Seq::<Seq<char>>::empty());
        }
        menc.write(self, &vals, value);
        proof {
            reveal(family_text);
            let rows = seq![RowModel { labels: Seq::empty(), value }];
            let name = info_name(old(self).namespace@, *info);
            let ts = timestamp.unwrap_or(0);
            let st = sample_text(name, info.label_keys@, Seq::empty(), value, ts);
            assert(rows.drop_last() =~= Seq::<RowModel>::empty());
            assert(rows.last() == RowModel { labels: Seq::empty(), value });
            assert(rows_text(name, info.label_keys@, Seq::<RowModel>::empty(), ts) == Seq::<char>::empty());
            assert(rows_text(name, info.label_keys@, rows, ts) == Seq::<char>::empty() + st);
            assert(Seq::<char>::empty() + st =~= st);
        }
    }
}

impl<'a> MetricEncoder<'a> {
    /// The writer of the family that `info` describes, under `namespace`;
    /// nothing is written until its first sample.
    pub fn new(namespace: &str, info: &'a Info, timestamp: Option<u64>) -> (m: MetricEncoder<'a>)
        ensures
            m.name@ == info_name(namespace@, *info),
            m.info == info,
            m.timestamp == timestamp.unwrap_or(0),
            !m.started,
    {
        let name = build_name(namespace, info);
        let ts = match timestamp {
            Some(t) => t,
            None => 0,
        };
        MetricEncoder { name, info, timestamp: ts, started: false }
    }

    /// Writes the label block: one `key="value"` per label, in order.
    fn write_labels(&self, out: &mut String, label_vals: &Vec<String>)
        requires
            label_vals@.len() == self.info.label_keys@.len(),
        ensures
            final(out)@ == old(out)@ + labels_text(
                self.info.label_keys@,
                strings_view(label_vals@),
            ),
    {
        let keys = &self.info.label_keys;
        let ghost vals = strings_view(label_vals@);
        let n = keys.len();
        if n == 0 {
            return;
        }
        let ghost start = out@;
        proof {
            reveal_strlit("{");
        }
        out.append("{");
        let mut i: usize = 0;
        while i < n
            invariant
                n == keys@.len(),
                n == label_vals@.len(),
                vals == strings_view(label_vals@),
                keys == &self.info.label_keys,
                i <= n,
                out@ == start + seq!['{'] + label_pairs(keys@, vals, i as int),
            decreases n - i,
        {
            proof {
                reveal_strlit(",");
                reveal_strlit("=\"");
                reveal_strlit("\"");
            }
            if i > 0 {
                out.append(",");
            }
            out.append(keys[i]);
            out.append("=\"");
            push_escaped(out, label_vals[i].as_str());
            out.append("\"");
            proof {
                let k = keys@;
                if i == 0 {
                    assert(label_pairs(k, vals, 0) =~= Seq::<char>::empty());
                }
                assert(out@ =~= start + seq!['{'] + label_pairs(k, vals, i + 1));
            }
            i = i + 1;
        }
        proof {
            reveal_strlit("}");
        }
        out.append("}");
        proof {
            assert(out@ =~= start + labels_text(keys@, vals));
        }
    }

    fn write_info(&self, out: &mut String)
        ensures
            final(out)@ == old(out)@ + header_text(self.name@, self.info.help@, self.info.ty),
    {
        proof {
            reveal_strlit("# HELP ");
            reveal_strlit("# TYPE ");
            reveal_strlit(" ");
            reveal_strlit("\n");
        }
        out.append("# HELP ");
        out.append(self.name.as_str());
        out.append(" ");
        out.append(self.info.help);
        out.append("\n");
        out.append("# TYPE ");
        out.append(self.name.as_str());
        out.append(" ");
        out.append(self.info.ty.as_str());
        out.append("\n");
        proof {
            assert(final(out)@ =~= old(out)@ + header_text(
                self.name@,
                self.info.help@,
                self.info.ty,
            ));
        }
    }

    /// Writes one sample: exactly one value per label key, in key order.
    /// The first sample is preceded by the family's HELP and TYPE lines.
    pub fn write(&mut self, enc: &mut Encoder, label_vals: &Vec<String>, value: SampleValue)
        requires
            label_vals@.len() == old(self).info.label_keys@.len(),
        ensures
            final(self).name == old(self).name,
            final(self).info == old(self).info,
            final(self).timestamp == old(self).timestamp,
            final(self).started,
            final(enc).namespace@ == old(enc).namespace@,
            final(enc).buf@ == old(enc).buf@ + (if old(self).started {
                Seq::empty()
            } else {
                header_text(old(self).name@, old(self).info.help@, old(self).info.ty)
            }) + sample_text(
                old(self).name@,
                old(self).info.label_keys@,
                strings_view(label_vals@),
                value,
                old(self).timestamp,
            ),
    {
        let ghost start = enc.buf@;
        if !self.started {
            self.write_info(&mut enc.buf);
            self.started = true;
        }
        let ghost mid = enc.buf@;
        enc.buf.append(self.name.as_str());
        self.write_labels(&mut enc.buf, label_vals);
        proof {
            reveal_strlit(" ");
            reveal_strlit("\n");
        }
        enc.buf.append(" ");
        push_value(&mut enc.buf, value);
        if self.timestamp > 0 {
            enc.buf.append(" ");
            push_dec(&mut enc.buf, self.timestamp);
        }
        enc.buf.append("\n");
        proof {
            assert(enc.buf@ =~= mid + sample_text(
                self.name@,
                self.info.label_keys@,
                strings_view(label_vals@),
                value,
                self.timestamp,
            ));
        }
    }
}

/// In a written label block, the text between `key="` and the closing
/// quote of label `i` is the escaped value, and unescaping it gives the
/// value back.
pub proof fn lemma_label_value_recoverable(keys: Seq<&str>, vals: Seq<Seq<char>>, i: int)
    ensures
        label_pair(keys, vals, i) == keys[i]@ + seq!['=', '"'] + escape(vals[i]) + seq!['"'],
        unescape(escape(vals[i])) == vals[i],
{
    lemma_unescape_escape(vals[i]);
}

} // verus!
