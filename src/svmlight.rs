//! The SVM-light text format, one item per line:
//! `<label> qid:<query_id> <index>:<value> ... # <description>`.
//!
//! Reading a line is split in two. [`SVMLight::parse_line`] checks the
//! structure of the line and reads every integer of it; the feature values
//! come back as their text, to be read as single-precision numbers by the
//! caller. [`SvmRecord::into_datapoint`] then places the values at their
//! indices.
use crate::datapoint::DataPoint;
use crate::error::LtrError;
use crate::ranklist::RankList;
use crate::text::push_char;
use crate::DataSet;
use vstd::prelude::*;

verus! {

/// The first position at or after `from` that holds `c`, else the length.
pub open spec fn index_of(s: Seq<char>, c: char, from: int) -> int
    decreases s.len() - from,
{
    if from >= s.len() {
        s.len() as int
    } else if s[from] == c {
        from
    } else {
        index_of(s, c, from + 1)
    }
}

/// The whitespace that surrounds fields: space, tab, line feed, vertical
/// tab, form feed and carriage return.
pub open spec fn is_blank(c: char) -> bool {
    c == ' ' || c == '\t' || c == '\n' || c == '\u{b}' || c == '\u{c}' || c == '\r'
}

/// The first position at or after `i` that is not blank, else the length.
pub open spec fn first_non_blank(s: Seq<char>, i: int) -> int
    decreases s.len() - i,
{
    if i >= s.len() {
        s.len() as int
    } else if !is_blank(s[i]) {
        i
    } else {
        first_non_blank(s, i + 1)
    }
}

/// The end of `s` once its trailing blanks are dropped, looking no lower
/// than `lo`.
pub open spec fn end_non_blank(s: Seq<char>, j: int, lo: int) -> int
    decreases j - lo,
{
    if j <= lo {
        lo
    } else if !is_blank(s[j - 1]) {
        j
    } else {
        end_non_blank(s, j - 1, lo)
    }
}

/// `s` without its leading and trailing blanks.
pub open spec fn trimmed(s: Seq<char>) -> Seq<char> {
    let a = first_non_blank(s, 0);
    s.subrange(a, end_non_blank(s, s.len() as int, a))
}

/// The pieces of the first `k` characters of `s` cut at each `c`: the
/// completed pieces, and the piece still open.
pub open spec fn split_prefix(s: Seq<char>, c: char, k: int) -> (Seq<Seq<char>>, Seq<char>)
    decreases k,
{
    if k <= 0 {
        (seq![], seq![])
    } else {
        let (done, open) = split_prefix(s, c, k - 1);
        if s[k - 1] == c {
            (done.push(open), seq![])
        } else {
            (done, open.push(s[k - 1]))
        }
    }
}

/// The pieces of `s` cut at each `c`; there is always at least one.
pub open spec fn split(s: Seq<char>, c: char) -> Seq<Seq<char>> {
    let (done, open) = split_prefix(s, c, s.len() as int);
    done.push(open)
}

/// The value of the digits of `s`.
pub open spec fn digits_value(s: Seq<char>) -> nat
    decreases s.len(),
{
    if s.len() == 0 {
        0
    } else {
        digits_value(s.drop_last()) * 10 + (s.last() as nat - '0' as nat) as nat
    }
}

/// `s` is a non-empty run of decimal digits.
pub open spec fn all_digits(s: Seq<char>) -> bool {
    s.len() > 0 && forall|i: int| 0 <= i < s.len() ==> '0' <= #[trigger] s[i] <= '9'
}

/// The unsigned integer written in `s` (digits, after an optional `+`),
/// when it is at most `max`.
pub open spec fn parse_unsigned(s: Seq<char>, max: nat) -> Option<nat> {
    let digits = if s.len() > 0 && s[0] == '+' { s.drop_first() } else { s };
    if all_digits(digits) && digits_value(digits) <= max {
        Some(digits_value(digits))
    } else {
        None
    }
}

/// What [`SvmRecord`] holds.
pub ghost struct SvmRecordView {
    pub label: u8,
    pub query_id: u64,
    /// Each feature's index and the text of its value, in line order.
    pub features: Seq<(usize, Seq<char>)>,
    pub description: Option<Seq<char>>,
}

/// The description: the trimmed text after the first `#`, up to the next.
pub open spec fn description_of(s: Seq<char>) -> Option<Seq<char>> {
    let h = index_of(s, '#', 0);
    if h < s.len() {
        Some(trimmed(s.subrange(h + 1, index_of(s, '#', h + 1))))
    } else {
        None
    }
}

/// The fields of the line: the trimmed text before the first `#`, cut at
/// each space.
pub open spec fn fields_of(s: Seq<char>) -> Seq<Seq<char>> {
    split(trimmed(s.take(index_of(s, '#', 0))), ' ')
}

/// The features read from fields `k..` of `fields`, or the first error.
pub open spec fn features_from(fields: Seq<Seq<char>>, k: int) -> Result<Seq<(usize, Seq<char>)>, LtrError>
    decreases fields.len() - k,
{
    if k >= fields.len() {
        Ok(seq![])
    } else {
        let parts = split(fields[k], ':');
        match parse_unsigned(parts[0], usize::MAX as nat) {
            Some(index) if index > 0 => {
                if parts.len() < 2 {
                    Err(LtrError::InvalidDataPoint("Missing feature value."))
                } else {
                    match features_from(fields, k + 1) {
                        Ok(rest) => Ok(seq![(index as usize, parts[1])] + rest),
                        Err(e) => Err(e),
                    }
                }
            },
            _ => Err(LtrError::InvalidDataPoint("Invalid feature index.")),
        }
    }
}

/// What a line reads as: its label, query id, feature texts and
/// description, or the first error found in field order.
pub open spec fn parse_line_spec(s: Seq<char>) -> Result<SvmRecordView, LtrError> {
    let fields = fields_of(s);
    match parse_unsigned(fields[0], u8::MAX as nat) {
        None => Err(LtrError::InvalidDataPoint("Invalid label parameter.")),
        Some(label) => if fields.len() < 2 {
            Err(LtrError::InvalidDataPoint("Missing the qid parameter."))
        } else {
            let q = split(fields[1], ':');
            if q.len() < 2 {
                Err(LtrError::ParseError("Query ID processing failure."))
            } else {
                match parse_unsigned(q[1], u64::MAX as nat) {
                    None => Err(LtrError::InvalidDataPoint("Invalid qid parameter.")),
                    Some(query_id) => match features_from(fields, 2) {
                        Err(e) => Err(e),
                        Ok(features) => Ok(
                            SvmRecordView {
                                label: label as u8,
                                query_id: query_id as u64,
                                features,
                                description: description_of(s),
                            },
                        ),
                    },
                }
            }
        },
    }
}

/// `v`'s strings as character sequences.
pub open spec fn seqs(v: Seq<Vec<char>>) -> Seq<Seq<char>> {
    Seq::new(v.len(), |i: int| v[i]@)
}

fn index_of_char(s: &Vec<char>, c: char, from: usize) -> (r: usize)
    requires
        from <= s@.len(),
    ensures
        r == index_of(s@, c, from as int),
        from <= r <= s@.len(),
{
    let mut i = from;
    while i < s.len() && s[i] != c
        invariant
            from <= i <= s@.len(),
            index_of(s@, c, from as int) == index_of(s@, c, i as int),
        decreases s@.len() - i,
    {
        i = i + 1;
    }
    i
}

fn slice_chars(s: &Vec<char>, a: usize, b: usize) -> (r: Vec<char>)
    requires
        a <= b <= s@.len(),
    ensures
        r@ == s@.subrange(a as int, b as int),
{
    let mut r: Vec<char> = Vec::new();
    let mut i = a;
    while i < b
        invariant
            a <= i <= b <= s@.len(),
            r@ == s@.subrange(a as int, i as int),
        decreases b - i,
    {
        r.push(s[i]);
        i = i + 1;
        assert(r@ =~= s@.subrange(a as int, i as int));
    }
    r
}

fn is_blank_char(c: char) -> (r: bool)
    ensures
        r == is_blank(c),
{
    c == ' ' || c == '\t' || c == '\n' || c == '\u{b}' || c == '\u{c}' || c == '\r'
}

fn trim(s: &Vec<char>) -> (r: Vec<char>)
    ensures
        r@ == trimmed(s@),
{
    let mut a: usize = 0;
    while a < s.len() && is_blank_char(s[a])
        invariant
            a <= s@.len(),
            first_non_blank(s@, 0) == first_non_blank(s@, a as int),
        decreases s@.len() - a,
    {
        a = a + 1;
    }
    let mut b: usize = s.len();
    while b > a && is_blank_char(s[b - 1])
        invariant
            a <= b <= s@.len(),
            end_non_blank(s@, s@.len() as int, a as int) == end_non_blank(s@, b as int, a as int),
        decreases b,
    {
        b = b - 1;
    }
    slice_chars(s, a, b)
}

fn split_at_char(s: &Vec<char>, c: char) -> (r: Vec<Vec<char>>)
    ensures
        seqs(r@) == split(s@, c),
        r@.len() >= 1,
{
    let mut done: Vec<Vec<char>> = Vec::new();
    let mut open: Vec<char> = Vec::new();
    let mut i: usize = 0;
    while i < s.len()
        invariant
            i <= s@.len(),
            (seqs(done@), open@) == split_prefix(s@, c, i as int),
        decreases s@.len() - i,
    {
        if s[i] == c {
            let ghost before = done@;
            let piece = open;
            done.push(piece);
            open = Vec::new();
            assert(seqs(done@) =~= seqs(before).push(piece@));
        } else {
            open.push(s[i]);
        }
        i = i + 1;
    }
    let ghost before = done@;
    let last = open;
    done.push(last);
    assert(seqs(done@) =~= seqs(before).push(last@));
    done
}

proof fn lemma_digits_value_grows(s: Seq<char>, j: int, k: int)
    requires
        0 <= j <= k <= s.len(),
    ensures
        digits_value(s.take(j)) <= digits_value(s.take(k)),
    decreases k - j,
{
    if j < k {
        lemma_digits_value_grows(s, j, k - 1);
        assert(s.take(k).drop_last() =~= s.take(k - 1));
    }
}

/// Reads the unsigned integer written in `s`, when it is at most `max`.
fn parse_number(s: &Vec<char>, max: u64) -> (r: Option<u64>)
    ensures
        match parse_unsigned(s@, max as nat) {
            Some(v) => r == Some(v as u64),
            None => r is None,
        },
{
    let start: usize = if s.len() > 0 && s[0] == '+' { 1 } else { 0 };
    let ghost digits = s@.subrange(start as int, s@.len() as int);
    assert(digits =~= if s@.len() > 0 && s@[0] == '+' { s@.drop_first() } else { s@ });
    assert(parse_unsigned(s@, max as nat) == (if all_digits(digits) && digits_value(digits) <= max {
        Some(digits_value(digits))
    } else {
        None
    }));
    if start == s.len() {
        return None;
    }
    let mut v: u64 = 0;
    let mut i: usize = start;
    while i < s.len()
        invariant
            start <= i <= s@.len(),
            digits == s@.subrange(start as int, s@.len() as int),
            parse_unsigned(s@, max as nat) == (if all_digits(digits) && digits_value(digits) <= max {
                Some(digits_value(digits))
            } else {
                None
            }),
            digits.take(i - start) == s@.subrange(start as int, i as int),
            forall|j: int| start <= j < i ==> '0' <= #[trigger] s@[j] <= '9',
            v == digits_value(s@.subrange(start as int, i as int)),
            v <= max,
        decreases s@.len() - i,
    {
        let c = s[i];
        if !('0' <= c && c <= '9') {
            assert(digits[i - start] == c);
            assert(!all_digits(digits));
            return None;
        }
        let d = (c as u32 - '0' as u32) as u64;
        assert(s@.subrange(start as int, i + 1).drop_last() =~= s@.subrange(start as int, i as int));
        assert(digits_value(s@.subrange(start as int, i + 1)) == v * 10 + d);
        if d > max || v > (max - d) / 10 {
            assert(v * 10 + d > max) by (nonlinear_arith)
                requires d > max || v > (max - d) / 10, v >= 0;
            proof {
                lemma_digits_value_grows(digits, i + 1 - start, digits.len() as int);
                assert(digits.take(i + 1 - start) =~= s@.subrange(start as int, i + 1));
                assert(digits.take(digits.len() as int) =~= digits);
                assert(digits_value(digits) > max);
            }
            return None;
        }
        assert(v * 10 + d <= max) by (nonlinear_arith)
            requires d <= max, v <= (max - d) / 10;
        v = v * 10 + d;
        i = i + 1;
        assert(digits.take(i - start) =~= s@.subrange(start as int, i as int));
    }
    assert(digits.take(i - start) =~= digits);
    Some(v)
}

fn chars_to_string(v: &Vec<char>) -> (r: String)
    ensures
        r@ == v@,
{
    let mut r = String::new();
    let mut i: usize = 0;
    while i < v.len()
        invariant
            i <= v@.len(),
            r@ == v@.take(i as int),
        decreases v@.len() - i,
    {
        push_char(&mut r, v[i]);
        i = i + 1;
        assert(r@ =~= v@.take(i as int));
    }
    assert(v@.take(i as int) =~= v@);
    r
}

/// `Ok(acc + rest)` for `Ok(rest)`, an error unchanged.
pub open spec fn prepend(
    acc: Seq<(usize, Seq<char>)>,
    r: Result<Seq<(usize, Seq<char>)>, LtrError>,
) -> Result<Seq<(usize, Seq<char>)>, LtrError> {
    match r {
        Ok(rest) => Ok(acc + rest),
        Err(e) => Err(e),
    }
}

/// The pairs of `v` with their texts as character sequences.
pub open spec fn text_pairs(v: Seq<(usize, String)>) -> Seq<(usize, Seq<char>)> {
    Seq::new(v.len(), |i: int| (v[i].0, v[i].1@))
}

/// One line of SVM-light text with its feature values still as text.
#[derive(Debug)]
pub struct SvmRecord {
    pub label: u8,
    pub query_id: u64,
    /// Each feature's index and the text of its value, in line order.
    pub features: Vec<(usize, String)>,
    pub description: Option<String>,
}

impl View for SvmRecord {
    type V = SvmRecordView;

    open spec fn view(&self) -> SvmRecordView {
        SvmRecordView {
            label: self.label,
            query_id: self.query_id,
            features: text_pairs(self.features@),
            description: match self.description {
                Some(d) => Some(d@),
                None => None,
            },
        }
    }
}

/// The feature vector built from `(index, value)` pairs in order: each
/// pair first extends the vector with `0.0` up to its index when needed,
/// then sets that index (counted from 1).
pub open spec fn dense_features(indices: Seq<usize>, values: Seq<u32>, k: int) -> Seq<u32>
    decreases k,
{
    if k <= 0 {
        seq![]
    } else {
        let before = dense_features(indices, values, k - 1);
        let index = indices[k - 1] as int;
        let extended = if index > before.len() {
            before + Seq::new((index - before.len()) as nat, |i: int| 0u32)
        } else {
            before
        };
        extended.update(index - 1, values[k - 1])
    }
}

impl SvmRecord {
    /// The indices of the features, in line order.
    pub open spec fn indices(self) -> Seq<usize> {
        Seq::new(self.features@.len(), |i: int| self.features@[i].0)
    }

    /// The item, with `values[i]` as the value of the `i`-th feature of the
    /// line (a single-precision bit pattern read from its text).
    pub fn into_datapoint(self, values: &Vec<u32>) -> (r: DataPoint)
        requires
            values@.len() == self.features@.len(),
            forall|i: int| 0 <= i < self.features@.len() ==> #[trigger] self.features@[i].0 >= 1,
        ensures
            r@.label == self.label,
            r@.query_id == self.query_id,
            r@.features == dense_features(self.indices(), values@, values@.len() as int),
            r@.description == self@.description,
    {
        let ghost indices = self.indices();
        let mut dense: Vec<u32> = Vec::new();
        let mut k: usize = 0;
        while k < values.len()
            invariant
                values@.len() == self.features@.len(),
                indices == self.indices(),
                forall|i: int| 0 <= i < self.features@.len() ==> #[trigger] self.features@[i].0 >= 1,
                k <= values@.len(),
                dense@ == dense_features(indices, values@, k as int),
            decreases values@.len() - k,
        {
            let index = self.features[k].0;
            let ghost before = dense@;
            while dense.len() < index
                invariant
                    before.len() <= dense@.len(),
                    dense@.len() <= if index > before.len() { index as int } else { before.len() as int },
                    index >= 1,
                    dense@ == before + Seq::new((dense@.len() - before.len()) as nat, |i: int| 0u32),
                decreases index - dense@.len(),
            {
                dense.push(0);
                assert(dense@ =~= before + Seq::new((dense@.len() - before.len()) as nat, |i: int| 0u32));
            }
            proof {
                if index as int <= before.len() {
                    assert(dense@ =~= before);
                } else {
                    assert(dense@.len() == index);
                }
                assert(indices[k as int] == index);
            }
            dense.set(index - 1, values[k]);
            k = k + 1;
        }
        let description = match &self.description {
            Some(d) => Some(d.as_str()),
            None => None,
        };
        DataPoint::new(self.label, self.query_id, dense, description)
    }
}

/// The lists of `points` with each run of equal query ids closed into a
/// list once the query id changes: the closed lists and the open one.
pub open spec fn group_prefix(
    points: Seq<crate::datapoint::DataPointView>,
    k: int,
) -> (Seq<Seq<crate::datapoint::DataPointView>>, Seq<crate::datapoint::DataPointView>)
    decreases k,
{
    if k <= 0 {
        (seq![], seq![])
    } else {
        let (done, open) = group_prefix(points, k - 1);
        let p = points[k - 1];
        if open.len() > 0 && open.last().query_id != p.query_id {
            (done.push(open), seq![p])
        } else {
            (done, open.push(p))
        }
    }
}

/// `points` cut into lists of consecutive items with equal query ids.
pub open spec fn grouped(points: Seq<crate::datapoint::DataPointView>) -> Seq<
    Seq<crate::datapoint::DataPointView>,
> {
    let (done, open) = group_prefix(points, points.len() as int);
    if open.len() == 0 {
        done
    } else {
        done.push(open)
    }
}

/// The views of the lists of a dataset.
pub open spec fn list_views(d: Seq<RankList>) -> Seq<Seq<crate::datapoint::DataPointView>> {
    Seq::new(d.len(), |i: int| d[i]@)
}

/// Reads SVM-light text.
pub struct SVMLight;

impl SVMLight {
    /// Reads the structure of one line: its label, query id, feature
    /// indices with the text of each value, and description. The first
    /// error met, in field order, is returned.
    pub fn parse_line(line: &Vec<char>) -> (r: Result<SvmRecord, LtrError>)
        ensures
            match parse_line_spec(line@) {
                Ok(v) => r is Ok && r->Ok_0@ == v,
                Err(e) => r == Err::<SvmRecord, LtrError>(e),
            },
    {
        let ghost s = line@;
        let hash = index_of_char(line, '#', 0);
        let description = if hash < line.len() {
            let end = index_of_char(line, '#', hash + 1);
            let d = trim(&slice_chars(line, hash + 1, end));
            Some(chars_to_string(&d))
        } else {
            None
        };
        assert(match description {
            Some(d) => Some(d@),
            None => None::<Seq<char>>,
        } == description_of(s));
        let data = trim(&slice_chars(line, 0, hash));
        let fields = split_at_char(&data, ' ');
        assert(seqs(fields@) == fields_of(s));
        let label = match parse_number(&fields[0], 255) {
            Some(v) => v as u8,
            None => {
                return Err(LtrError::InvalidDataPoint("Invalid label parameter."));
            },
        };
        if fields.len() < 2 {
            return Err(LtrError::InvalidDataPoint("Missing the qid parameter."));
        }
        let q = split_at_char(&fields[1], ':');
        if q.len() < 2 {
            return Err(LtrError::ParseError("Query ID processing failure."));
        }
        let query_id = match parse_number(&q[1], u64::MAX) {
            Some(v) => v,
            None => {
                return Err(LtrError::InvalidDataPoint("Invalid qid parameter."));
            },
        };
        let mut features: Vec<(usize, String)> = Vec::new();
        let mut k: usize = 2;
        assert(parse_line_spec(s) == (match features_from(fields_of(s), 2) {
            Err(e) => Err(e),
            Ok(features) => Ok(SvmRecordView { label, query_id, features, description: description_of(s) }),
        }));
        assert(text_pairs(features@) =~= seq![]);
        assert(prepend(seq![], features_from(fields_of(s), 2)) =~= features_from(fields_of(s), 2)) by {
            match features_from(fields_of(s), 2) {
                Ok(r) => { assert(seq![] + r =~= r); },
                Err(_) => {},
            }
        }
        while k < fields.len()
            invariant
                s == line@,
                2 <= k <= fields@.len(),
                parse_line_spec(s) == (match features_from(fields_of(s), 2) {
                    Err(e) => Err(e),
                    Ok(features) => Ok(SvmRecordView { label, query_id, features, description: description_of(s) }),
                }),
                seqs(fields@) == fields_of(s),
                features_from(fields_of(s), 2) == prepend(text_pairs(features@), features_from(fields_of(s), k as int)),
            decreases fields@.len() - k,
        {
            let parts = split_at_char(&fields[k], ':');
            assert(fields@[k as int]@ == fields_of(s)[k as int]);
            let ghost sp = split(fields_of(s)[k as int], ':');
            assert(parts@[0]@ == sp[0]);
            assert(usize::MAX as u64 as nat == usize::MAX as nat);
            let index = match parse_number(&parts[0], usize::MAX as u64) {
                Some(v) if v > 0 => v as usize,
                _ => {
                    assert(features_from(fields_of(s), k as int) == Err::<Seq<(usize, Seq<char>)>, LtrError>(
                        LtrError::InvalidDataPoint("Invalid feature index."),
                    ));
                    return Err(LtrError::InvalidDataPoint("Invalid feature index."));
                },
            };
            if parts.len() < 2 {
                assert(features_from(fields_of(s), k as int) == Err::<Seq<(usize, Seq<char>)>, LtrError>(
                    LtrError::InvalidDataPoint("Missing feature value."),
                ));
                return Err(LtrError::InvalidDataPoint("Missing feature value."));
            }
            let text = chars_to_string(&parts[1]);
            let ghost acc = text_pairs(features@);
            features.push((index, text));
            assert(text_pairs(features@) =~= acc.push((index, parts@[1]@)));
            proof {
                let rest = features_from(fields_of(s), k + 1);
                match rest {
                    Ok(r) => {
                        assert(acc + (seq![(index, parts@[1]@)] + r) =~= acc.push((index, parts@[1]@)) + r);
                    },
                    Err(_) => {},
                }
            }
            k = k + 1;
        }
        let record = SvmRecord { label, query_id, features, description };
        assert(features_from(fields_of(s), k as int) == Ok::<Seq<(usize, Seq<char>)>, LtrError>(seq![]));
        assert(text_pairs(record.features@) + seq![] =~= text_pairs(record.features@));
        Ok(record)
    }

    /// Cuts `points` into lists: consecutive items with the same query id
    /// share a list, and a list ends where the query id changes.
    pub fn group_by_query(points: Vec<DataPoint>) -> (r: DataSet)
        ensures
            list_views(r@) == grouped(crate::ranklist::views(points@)),
    {
        let ghost pv = crate::ranklist::views(points@);
        let mut done: Vec<RankList> = Vec::new();
        let mut open: Vec<DataPoint> = Vec::new();
        let mut last_query: u64 = 0;
        let mut i: usize = 0;
        while i < points.len()
            invariant
                pv == crate::ranklist::views(points@),
                i <= points@.len(),
                (list_views(done@), crate::ranklist::views(open@)) == group_prefix(pv, i as int),
                open@.len() > 0 ==> last_query == open@.last()@.query_id,
            decreases points@.len() - i,
        {
            let p = points[i].clone();
            let q = p.get_query_id();
            if open.len() > 0 && last_query != q {
                let ghost before = list_views(done@);
                let list = RankList::new(open);
                done.push(list);
                assert(list_views(done@) =~= before.push(list@));
                open = Vec::new();
            }
            let ghost ob = open@;
            open.push(p);
            assert(crate::ranklist::views(open@) =~= crate::ranklist::views(ob).push(p@));
            last_query = q;
            i = i + 1;
        }
        if open.len() > 0 {
            let ghost before = list_views(done@);
            let list = RankList::new(open);
            done.push(list);
            assert(list_views(done@) =~= before.push(list@));
        }
        done
    }
}

} // verus!
