//! The C source text of a decoded stream.

use vstd::prelude::*;

use vstd::arithmetic::div_mod::{lemma_fundamental_div_mod, lemma_fundamental_div_mod_converse};

use crate::decode::{mono_of, DecodedAudio};
use crate::format::{format_check, summary_text, AudioFormat, SampleWidth, WavError};
use crate::identifier::{sanitize_identifier, sanitized, size_symbol, size_symbol_text};
use crate::numerals::{
    append_decimal, append_digits, append_hex, decimal_text, digit_chars, digits, hex_text,
};

verus! {

/// Literals per row of the array body.
pub const SAMPLES_PER_ROW: usize = 8;

/// The radix of the sample literals.
#[derive(Clone, Copy, Debug, PartialEq, Eq, Structural)]
pub enum NumericBase {
    /// Signed base ten.
    Decimal,
    /// `0x` and the two's-complement pattern at the sample type's width.
    Hex,
}

/// How the array is to be written.
#[derive(Clone, Debug)]
pub struct SerializationOptions {
    /// The most frames accepted, if bounded.
    pub max_samples: Option<usize>,
    /// Whether the descriptive comment opens the text.
    pub emit_comment: bool,
    pub numeric_base: NumericBase,
    /// Text copied verbatim before the array, followed by a blank line.
    pub prefix_text: Option<String>,
    /// The array's name before sanitizing.
    pub array_name: String,
    /// Whether the caller also writes a companion header.
    pub emit_header: bool,
}

/// Where the text comes from, as the descriptive comment tells it.
#[derive(Clone, Debug)]
pub struct Provenance {
    pub tool_name: String,
    pub tool_version: String,
    pub source_name: String,
    pub repository: String,
}

/// One sample as a C literal.
pub open spec fn literal_text(v: i32, width: SampleWidth, base: NumericBase) -> Seq<char> {
    match base {
        NumericBase::Decimal => decimal_text(v as int),
        NumericBase::Hex => hex_text(v as int, width.bits()),
    }
}

/// The samples cut into rows of `SAMPLES_PER_ROW`, the last row holding
/// what is left.
pub open spec fn rows_of(s: Seq<i32>) -> Seq<Seq<i32>>
    decreases s.len(),
{
    if s.len() == 0 {
        seq![]
    } else {
        let k = last_row_start(s.len() as int);
        rows_of(s.take(k)).push(s.skip(k))
    }
}

/// Where the last row of `n > 0` samples starts.
pub open spec fn last_row_start(n: int) -> int {
    ((n - 1) / 8) * 8
}

/// Each sample of a row as ` <literal>,`.
pub open spec fn literals_text(row: Seq<i32>, width: SampleWidth, base: NumericBase) -> Seq<
    char,
>
    decreases row.len(),
{
    if row.len() == 0 {
        seq![]
    } else {
        literals_text(row.drop_last(), width, base) + seq![' '] + literal_text(
            row.last(),
            width,
            base,
        ) + seq![',']
    }
}

/// Each row on a line of its own, indented by a tab.
pub open spec fn rows_text(rows: Seq<Seq<i32>>, width: SampleWidth, base: NumericBase) -> Seq<
    char,
>
    decreases rows.len(),
{
    if rows.len() == 0 {
        seq![]
    } else {
        rows_text(rows.drop_last(), width, base) + seq!['\n', '\t'] + literals_text(
            rows.last(),
            width,
            base,
        )
    }
}

/// The array body between the braces.
#[verifier::opaque]
pub open spec fn samples_text(s: Seq<i32>, width: SampleWidth, base: NumericBase) -> Seq<char> {
    rows_text(rows_of(s), width, base)
}

/// `#define <NAME>_SAMPLE_NO <count>` and a line break.
pub open spec fn size_define_text(name: Seq<char>, count: int) -> Seq<char> {
    "#define "@ + size_symbol_text(name) + seq![' '] + decimal_text(count) + seq!['\n']
}

/// `const <type> <name>[]`.
pub open spec fn declarator_text(width: SampleWidth, name: Seq<char>) -> Seq<char> {
    "const "@ + width.c_name() + seq![' '] + name + "[]"@
}

/// The size constant and the array definition.
pub open spec fn array_text(
    name: Seq<char>,
    s: Seq<i32>,
    width: SampleWidth,
    base: NumericBase,
) -> Seq<char> {
    size_define_text(name, s.len() as int) + seq!['\n'] + declarator_text(width, name) + " = {"@
        + samples_text(s, width, base) + "\n};"@
}

/// The descriptive comment block.
pub open spec fn comment_text(p: Provenance, f: AudioFormat) -> Seq<char> {
    "/*\n/* Generated by "@ + p.tool_name@ + " v"@ + p.tool_version@ + " from "@
        + p.source_name@ + "\n/* "@ + summary_text(f) + "\n/*\n/* "@ + p.repository@
        + "\n*/\n\n"@
}

/// The whole generated text.
pub open spec fn output_text(
    f: AudioFormat,
    w: SampleWidth,
    s: Seq<i32>,
    o: SerializationOptions,
    p: Provenance,
) -> Seq<char> {
    (if o.emit_comment {
        comment_text(p, f)
    } else {
        seq![]
    }) + match o.prefix_text {
        Some(t) => t@ + seq!['\n', '\n'],
        None => seq![],
    } + array_text(sanitized(o.array_name@), s, w, o.numeric_base)
}

/// Whether `count` frames are within the bound.
pub open spec fn within_bound(count: int, max: Option<usize>) -> bool {
    match max {
        Some(m) => count <= m,
        None => true,
    }
}

proof fn lemma_rows_extend(s: Seq<i32>, r: int, end: int)
    requires
        0 <= r < end <= s.len(),
        r % 8 == 0,
        end == r + 8 || end == s.len(),
        end <= r + 8,
    ensures
        rows_of(s.take(end)) == rows_of(s.take(r)).push(s.subrange(r, end)),
{
    let t = s.take(end);
    lemma_fundamental_div_mod_converse(end - 1, 8, r / 8, end - 1 - r);
    assert(last_row_start(end) == r);
    assert(t.take(r) =~= s.take(r));
    assert(t.skip(r) =~= s.subrange(r, end));
}

/// Checks the frame count against the bound, if there is one.
pub fn check_bounds(count: usize, max_samples: Option<usize>) -> (r: Result<(), WavError>)
    ensures
        if within_bound(count as int, max_samples) {
            r is Ok
        } else {
            r == Err::<(), WavError>(
                WavError::SampleCountExceeded { actual: count, max: max_samples->Some_0 },
            )
        },
{
    match max_samples {
        Some(m) => {
            if count > m {
                Err(WavError::SampleCountExceeded { actual: count, max: m })
            } else {
                Ok(())
            }
        },
        None => Ok(()),
    }
}

fn append_literal(out: &mut String, v: i32, width: SampleWidth, base: NumericBase)
    ensures
        final(out)@ == old(out)@ + literal_text(v, width, base),
{
    match base {
        NumericBase::Decimal => append_decimal(out, v as i64),
        NumericBase::Hex => append_hex(out, v, width),
    }
}

proof fn lemma_samples_text_extend(
    s: Seq<i32>,
    r: int,
    end: int,
    width: SampleWidth,
    base: NumericBase,
)
    requires
        0 <= r < end <= s.len(),
        r % 8 == 0,
        end == r + 8 || end == s.len(),
        end <= r + 8,
    ensures
        samples_text(s.take(end), width, base) == samples_text(s.take(r), width, base) + seq![
            '\n',
            '\t',
        ] + literals_text(s.subrange(r, end), width, base),
{
    reveal(samples_text);
    lemma_rows_extend(s, r, end);
    let rows = rows_of(s.take(end));
    assert(rows.drop_last() =~= rows_of(s.take(r)));
}

/// Appends the literals of `samples[from..to]`.
fn append_row(
    out: &mut String,
    samples: &Vec<i32>,
    from: usize,
    to: usize,
    width: SampleWidth,
    base: NumericBase,
)
    requires
        from <= to <= samples@.len(),
    ensures
        final(out)@ == old(out)@ + literals_text(
            samples@.subrange(from as int, to as int),
            width,
            base,
        ),
{
    let ghost line_start = out@;
    let mut j: usize = from;
    assert(samples@.subrange(from as int, from as int) =~= Seq::<i32>::empty());
    while j < to
        invariant
            from <= j <= to <= samples@.len(),
            out@ == line_start + literals_text(
                samples@.subrange(from as int, j as int),
                width,
                base,
            ),
        decreases to - j,
    {
        assert(samples@.subrange(from as int, j + 1).drop_last() =~= samples@.subrange(
            from as int,
            j as int,
        ));
        out.append(" ");
        proof {
            reveal_strlit(" ");
        }
        append_literal(out, samples[j], width, base);
        out.append(",");
        proof {
            reveal_strlit(",");
        }
        j = j + 1;
        assert(out@ =~= line_start + literals_text(
            samples@.subrange(from as int, j as int),
            width,
            base,
        ));
    }
}

/// Appends the array body: rows of `SAMPLES_PER_ROW` literals, each row on
/// a new line after a tab, each literal after a space and before a comma.
pub fn append_samples(out: &mut String, samples: &Vec<i32>, width: SampleWidth, base: NumericBase)
    ensures
        final(out)@ == old(out)@ + samples_text(samples@, width, base),
{
    let ghost start = out@;
    let n = samples.len();
    let mut r: usize = 0;
    assert(samples@.take(0) =~= Seq::<i32>::empty());
    proof {
        reveal(samples_text);
    }
    while r < n
        invariant
            n == samples@.len(),
            r <= n,
            r % 8 == 0 || r == n,
            out@ == start + samples_text(samples@.take(r as int), width, base),
        decreases n - r,
    {
        let end: usize = if n - r > SAMPLES_PER_ROW {
            r + SAMPLES_PER_ROW
        } else {
            n
        };
        proof {
            lemma_samples_text_extend(samples@, r as int, end as int, width, base);
        }
        let ghost before = out@;
        out.append("\n\t");
        proof {
            reveal_strlit("\n\t");
        }
        append_row(out, samples, r, end, width, base);
        proof {
            let row = literals_text(samples@.subrange(r as int, end as int), width, base);
            assert(out@ =~= before + seq!['\n', '\t'] + row);
            assert(out@ =~= start + (samples_text(samples@.take(r as int), width, base) + seq![
                '\n',
                '\t',
            ] + row));
        }
        r = end;
    }
    assert(samples@.take(n as int) =~= samples@);
}

/// `#define <NAME>_SAMPLE_NO <count>` and a line break: the constant that
/// both the source and the header carry.
pub fn size_define(name: &str, count: usize) -> (r: String)
    ensures
        r@ == size_define_text(name@, count as int),
{
    let mut out = String::from_str("#define ");
    let symbol = size_symbol(name);
    out.append(symbol.as_str());
    out.append(" ");
    append_digits(&mut out, count as u64, 10);
    out.append("\n");
    proof {
        reveal_strlit(" ");
        reveal_strlit("\n");
    }
    out
}

/// `const <type> <name>[]`: the array as both its definition and a forward
/// declaration name it.
pub fn array_declarator(width: SampleWidth, name: &str) -> (r: String)
    ensures
        r@ == declarator_text(width, name@),
{
    let mut out = String::from_str("const ");
    out.append(width.c_type_name());
    out.append(" ");
    out.append(name);
    out.append("[]");
    proof {
        reveal_strlit(" ");
    }
    out
}

/// The size constant, a blank line, and the array definition with its
/// samples.
pub fn render_array(name: &str, samples: &Vec<i32>, width: SampleWidth, base: NumericBase) -> (r:
    String)
    ensures
        r@ == array_text(name@, samples@, width, base),
{
    let mut out = size_define(name, samples.len());
    out.append("\n");
    let decl = array_declarator(width, name);
    out.append(decl.as_str());
    out.append(" = {");
    append_samples(&mut out, samples, width, base);
    out.append("\n};");
    proof {
        reveal_strlit("\n");
    }
    out
}

/// The descriptive comment block that may open the text.
pub fn render_comment(provenance: &Provenance, format: &AudioFormat) -> (r: String)
    ensures
        r@ == comment_text(*provenance, *format),
{
    let mut out = String::from_str("/*\n/* Generated by ");
    out.append(provenance.tool_name.as_str());
    out.append(" v");
    out.append(provenance.tool_version.as_str());
    out.append(" from ");
    out.append(provenance.source_name.as_str());
    out.append("\n/* ");
    let summary = format.summary();
    out.append(summary.as_str());
    out.append("\n/*\n/* ");
    out.append(provenance.repository.as_str());
    out.append("\n*/\n\n");
    out
}

/// The C source for a decoded stream: the comment if asked for, the prefix
/// if any, then the array under its sanitized name. Fails, and writes
/// nothing, when there are more frames than the bound allows.
pub fn render(audio: &DecodedAudio, options: &SerializationOptions, provenance: &Provenance) -> (r:
    Result<String, WavError>)
    ensures
        if within_bound(audio.samples@.len() as int, options.max_samples) {
            r matches Ok(t) && t@ == output_text(audio.format, audio.width, audio.samples@, *options, *provenance)
        } else {
            r == Err::<String, WavError>(
                WavError::SampleCountExceeded {
                    actual: audio.samples@.len() as usize,
                    max: options.max_samples->Some_0,
                },
            )
        },
{
    match check_bounds(audio.samples.len(), options.max_samples) {
        Ok(()) => {},
        Err(e) => {
            return Err(e);
        },
    }
    let mut out = if options.emit_comment {
        render_comment(provenance, &audio.format)
    } else {
        String::new()
    };
    match &options.prefix_text {
        Some(t) => {
            out.append(t.as_str());
            out.append("\n\n");
            proof {
                reveal_strlit("\n\n");
            }
        },
        None => {},
    }
    let name = sanitize_identifier(options.array_name.as_str());
    let body = render_array(name.as_str(), &audio.samples, audio.width, options.numeric_base);
    out.append(body.as_str());
    assert(out@ =~= output_text(audio.format, audio.width, audio.samples@, *options, *provenance));
    Ok(out)
}

/// The samples of the rows, in order.
pub open spec fn concat_rows(rows: Seq<Seq<i32>>) -> Seq<i32>
    decreases rows.len(),
{
    if rows.len() == 0 {
        seq![]
    } else {
        concat_rows(rows.drop_last()) + rows.last()
    }
}

/// How often `c` occurs in `s`.
pub open spec fn count_char(s: Seq<char>, c: char) -> nat
    decreases s.len(),
{
    if s.len() == 0 {
        0
    } else {
        count_char(s.drop_last(), c) + if s.last() == c {
            1nat
        } else {
            0nat
        }
    }
}

/// Row layout of the array body: the rows hold the samples in order, there
/// are rows exactly when there are samples, every row but the last holds
/// `SAMPLES_PER_ROW` literals, and the last holds the count modulo
/// `SAMPLES_PER_ROW`, or a full row when that is zero.
pub proof fn lemma_row_layout(s: Seq<i32>)
    ensures
        concat_rows(rows_of(s)) == s,
        rows_of(s).len() == 0 <==> s.len() == 0,
        forall|i: int| 0 <= i < rows_of(s).len() - 1 ==> (#[trigger] rows_of(s)[i]).len() == 8,
        s.len() > 0 ==> rows_of(s).last().len() == if s.len() % 8 == 0 {
            8
        } else {
            s.len() % 8
        },
    decreases s.len(),
{
    if s.len() > 0 {
        let n = s.len() as int;
        let k = last_row_start(n);
        let q = (n - 1) / 8;
        lemma_fundamental_div_mod(n - 1, 8);
        let rem = n - 1 - 8 * q;
        assert(0 <= rem < 8);
        assert(k == 8 * q);
        lemma_fundamental_div_mod_converse(k, 8, q, 0);
        if rem == 7 {
            lemma_fundamental_div_mod_converse(n, 8, q + 1, 0);
        } else {
            lemma_fundamental_div_mod_converse(n, 8, q, rem + 1);
        }
        let front = s.take(k);
        lemma_row_layout(front);
        let prev = rows_of(front);
        let rows = rows_of(s);
        assert(rows == prev.push(s.skip(k)));
        assert(rows.drop_last() =~= prev);
        assert(front + s.skip(k) =~= s);
        assert forall|i: int| 0 <= i < rows.len() - 1 implies (#[trigger] rows[i]).len() == 8 by {
            assert(rows[i] == prev[i]);
        }
    }
}

proof fn lemma_count_concat(a: Seq<char>, b: Seq<char>, c: char)
    ensures
        count_char(a + b, c) == count_char(a, c) + count_char(b, c),
    decreases b.len(),
{
    if b.len() == 0 {
        assert(a + b =~= a);
    } else {
        assert((a + b).drop_last() =~= a + b.drop_last());
        lemma_count_concat(a, b.drop_last(), c);
    }
}

proof fn lemma_count_single(x: char, c: char)
    ensures
        count_char(seq![x], c) == if x == c {
            1nat
        } else {
            0nat
        },
{
    assert(seq![x].drop_last() =~= Seq::<char>::empty());
    reveal_with_fuel(count_char, 2);
}

proof fn lemma_count_pair(x: char, y: char, c: char)
    ensures
        count_char(seq![x, y], c) == count_char(seq![x], c) + count_char(seq![y], c),
{
    assert(seq![x, y] =~= seq![x] + seq![y]);
    lemma_count_concat(seq![x], seq![y], c);
}

proof fn lemma_digits_no_comma(n: nat, base: nat)
    ensures
        count_char(digits(n, base), ',') == 0,
    decreases n,
{
    let d = digit_chars();
    assert(d[0] != ',' && d[1] != ',' && d[2] != ',' && d[3] != ',' && d[4] != ',' && d[5] != ','
        && d[6] != ',' && d[7] != ',' && d[8] != ',' && d[9] != ',' && d[10] != ',' && d[11]
        != ',' && d[12] != ',' && d[13] != ',' && d[14] != ',' && d[15] != ',');
    if !(base < 2 || base > 16 || n < base) {
        assert(n / base < n) by (nonlinear_arith)
            requires
                base >= 2,
                n >= base,
        ;
        lemma_digits_no_comma(n / base, base);
        let last = d[(n % base) as int];
        lemma_count_single(last, ',');
        lemma_count_concat(digits(n / base, base), seq![last], ',');
        assert(digits(n / base, base).push(last) =~= digits(n / base, base) + seq![last]);
    } else {
        lemma_count_single(d[(n % 16) as int], ',');
    }
}

proof fn lemma_literal_no_comma(v: i32, width: SampleWidth, base: NumericBase)
    ensures
        count_char(literal_text(v, width, base), ',') == 0,
{
    match base {
        NumericBase::Decimal => {
            if v < 0 {
                lemma_digits_no_comma((-v) as nat, 10);
                lemma_count_concat(seq!['-'], digits((-v) as nat, 10), ',');
                lemma_count_single('-', ',');
            } else {
                lemma_digits_no_comma(v as nat, 10);
            }
        },
        NumericBase::Hex => {
            let p = crate::numerals::twos_complement(v as int, width.bits());
            lemma_digits_no_comma(p, 16);
            lemma_count_concat(seq!['0', 'x'], digits(p, 16), ',');
            lemma_count_pair('0', 'x', ',');
            lemma_count_single('0', ',');
            lemma_count_single('x', ',');
        },
    }
}

proof fn lemma_literals_count(row: Seq<i32>, width: SampleWidth, base: NumericBase)
    ensures
        count_char(literals_text(row, width, base), ',') == row.len(),
    decreases row.len(),
{
    if row.len() > 0 {
        lemma_literals_count(row.drop_last(), width, base);
        lemma_literal_no_comma(row.last(), width, base);
        let head = literals_text(row.drop_last(), width, base);
        let lit = literal_text(row.last(), width, base);
        lemma_count_concat(head, seq![' '], ',');
        lemma_count_concat(head + seq![' '], lit, ',');
        lemma_count_concat(head + seq![' '] + lit, seq![','], ',');
        lemma_count_single(' ', ',');
        lemma_count_single(',', ',');
    }
}

proof fn lemma_rows_count(rows: Seq<Seq<i32>>, width: SampleWidth, base: NumericBase)
    ensures
        count_char(rows_text(rows, width, base), ',') == concat_rows(rows).len(),
    decreases rows.len(),
{
    if rows.len() > 0 {
        lemma_rows_count(rows.drop_last(), width, base);
        lemma_literals_count(rows.last(), width, base);
        let head = rows_text(rows.drop_last(), width, base);
        lemma_count_concat(head, seq!['\n', '\t'], ',');
        lemma_count_concat(head + seq!['\n', '\t'], literals_text(rows.last(), width, base), ',');
        lemma_count_pair('\n', '\t', ',');
        lemma_count_single('\n', ',');
        lemma_count_single('\t', ',');
    }
}

/// Round-trip size: a valid mono stream of N frames decodes to its N samples
/// unchanged; the array body then holds exactly N comma-terminated literals,
/// and the size constant is defined as N.
pub proof fn lemma_round_trip_size(
    f: AudioFormat,
    raw: Seq<i32>,
    name: Seq<char>,
    base: NumericBase,
)
    requires
        format_check(f) is Ok,
        f.channel_count == 1,
    ensures
        mono_of(f.channel_count as int, raw) == Some(raw),
        ({
            let w = format_check(f)->Ok_0;
            &&& count_char(samples_text(raw, w, base), ',') == raw.len()
            &&& array_text(name, raw, w, base) == size_define_text(name, raw.len() as int) + (
            seq!['\n'] + declarator_text(w, name) + " = {"@ + samples_text(raw, w, base)
                + "\n};"@)
        }),
{
    let w = format_check(f)->Ok_0;
    reveal(samples_text);
    lemma_row_layout(raw);
    lemma_rows_count(rows_of(raw), w, base);
    let d = size_define_text(name, raw.len() as int);
    assert(array_text(name, raw, w, base) =~= d + (seq!['\n'] + declarator_text(w, name)
        + " = {"@ + samples_text(raw, w, base) + "\n};"@));
}

} // verus!
