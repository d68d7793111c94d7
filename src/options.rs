use vstd::prelude::*;
use vstd::string::StringExecFns;

verus! {

/// The SQL literal given as an option's value.
#[derive(Debug)]
pub enum SqlLiteral {
    SingleQuotedString(String),
    Number(String),
    Boolean(bool),
    /// Any other kind of literal.
    Other,
}

/// A validated option value.
#[derive(Debug)]
pub enum OptionValue {
    Text(String),
    Number(u32),
    Bool(bool),
    List(Vec<String>),
}

/// What an option accepts, and what it takes when it is not given.
#[derive(Debug)]
pub enum OptionKind {
    /// A quoted string; `accepted`, when present, lists the values allowed.
    Text { default_text: Option<String>, required: bool, accepted: Option<Vec<String>> },
    /// A number that fits in `u32`, at least `min` when that is present.
    Int { min: Option<u32>, default_number: u32, required: bool },
    Bool { default_flag: bool, required: bool },
    /// A quoted string of comma-separated items, each trimmed.
    List,
}

/// One option of a job: its name and kind.
#[derive(Debug)]
pub struct OptionSpec {
    pub name: String,
    pub kind: OptionKind,
}

/// Why a single option was refused.
#[derive(Clone, Copy, PartialEq, Eq, Structural, Debug)]
pub enum OptionFault {
    /// A required option is missing.
    Required,
    /// The literal has the wrong kind for the option.
    Invalid,
    /// The string is not one of the accepted values.
    NotAccepted,
    /// The number is below the option's minimum.
    BelowMinimum,
    /// The number does not parse as a `u32`.
    NotANumber,
}

/// Why a set of options was refused.
#[derive(Debug)]
pub enum OptionsError {
    /// The named option was refused.
    Option { name: String, fault: OptionFault },
    /// Options that no job option has, in the order given.
    Unknown(Vec<String>),
    /// Upsert mode was asked for without unique key columns.
    UpsertWithoutKeys,
}

/// The numeric value of a string of decimal digits.
pub open spec fn digits_value(s: Seq<char>) -> int
    decreases s.len(),
{
    if s.len() == 0 {
        0
    } else {
        digits_value(s.drop_last()) * 10 + ((s.last() as u32) - ('0' as u32))
    }
}

/// What `str::parse::<u32>` gives: an optional `+`, then at least one
/// decimal digit, with a value that fits in `u32`.
pub open spec fn decimal_u32(s: Seq<char>) -> Option<u32> {
    let d = if s.len() > 0 && s[0] == '+' {
        s.drop_first()
    } else {
        s
    };
    if d.len() > 0 && (forall|i: int| 0 <= i < d.len() ==> '0' <= #[trigger] d[i] <= '9')
        && digits_value(d) <= u32::MAX {
        Some(digits_value(d) as u32)
    } else {
        None
    }
}

/// Relies on std's `str::parse::<u32>`, which accepts exactly an optional
/// `+` followed by decimal digits whose value fits in `u32`.
#[verifier::external_body]
fn parse_u32(s: &str) -> (r: Option<u32>)
    ensures
        r == decimal_u32(s@),
{
    s.parse::<u32>().ok()
}

/// The pieces of `s` between the occurrences of `c`, as `str::split` gives
/// them: one more piece than there are occurrences, empty pieces kept.
pub open spec fn split_on(s: Seq<char>, c: char) -> Seq<Seq<char>>
    decreases s.len(),
{
    if s.len() == 0 {
        seq![Seq::empty()]
    } else {
        let rest = split_on(s.drop_last(), c);
        if s.last() == c {
            rest.push(Seq::empty())
        } else {
            rest.update(rest.len() - 1, rest.last().push(s.last()))
        }
    }
}

/// Relies on std's `str::split` with a `char` pattern.
#[verifier::external_body]
fn split_text(s: &str, sep: char) -> (r: Vec<String>)
    ensures
        r@.len() == split_on(s@, sep).len(),
        forall|i: int| 0 <= i < r@.len() ==> (#[trigger] r@[i])@ == split_on(s@, sep)[i],
{
    s.split(sep).map(|p| p.to_string()).collect()
}

/// The characters that `char::is_whitespace` accepts: those with the
/// Unicode White_Space property.
pub open spec fn is_white_space(c: char) -> bool {
    c == '\t' || c == '\n' || c == '\u{0B}' || c == '\u{0C}' || c == '\r' || c == ' ' || c
        == '\u{85}' || c == '\u{A0}' || c == '\u{1680}' || ('\u{2000}' <= c && c <= '\u{200A}')
        || c == '\u{2028}' || c == '\u{2029}' || c == '\u{202F}' || c == '\u{205F}' || c
        == '\u{3000}'
}

/// Whether `r` is `s` without its leading and trailing white space.
pub open spec fn trimmed_from(r: Seq<char>, s: Seq<char>) -> bool {
    exists|i: int, j: int|
        0 <= i <= j <= s.len() && r == s.subrange(i, j) && (forall|k: int|
            0 <= k < i ==> is_white_space(#[trigger] s[k])) && (forall|k: int|
            j <= k < s.len() ==> is_white_space(#[trigger] s[k])) && (i < j ==> !is_white_space(s[i])
            && !is_white_space(s[j - 1]))
}

/// Relies on std's `str::trim`: the string without leading and trailing
/// characters for which `char::is_whitespace` holds.
#[verifier::external_body]
fn trim_text(s: &str) -> (r: String)
    ensures
        trimmed_from(r@, s@),
{
    s.trim().to_string()
}

/// The value of the first entry called `name`.
pub open spec fn lookup<T>(raw: Seq<(String, T)>, name: Seq<char>) -> Option<T>
    decreases raw.len(),
{
    if raw.len() == 0 {
        None
    } else if raw[0].0@ == name {
        Some(raw[0].1)
    } else {
        lookup(raw.drop_first(), name)
    }
}

/// Whether `s` is among `values`.
pub open spec fn listed(values: Seq<String>, s: Seq<char>) -> bool {
    exists|i: int| 0 <= i < values.len() && (#[trigger] values[i])@ == s
}

/// The fault of an option given `lit`, or none.
pub open spec fn fault_of(kind: OptionKind, lit: Option<SqlLiteral>) -> Option<OptionFault> {
    match (kind, lit) {
        (OptionKind::Text { accepted, .. }, Some(SqlLiteral::SingleQuotedString(s))) => {
            if accepted is Some && !listed(accepted->Some_0@, s@) {
                Some(OptionFault::NotAccepted)
            } else {
                None
            }
        },
        (OptionKind::Int { min, .. }, Some(SqlLiteral::Number(t))) => {
            match decimal_u32(t@) {
                None => Some(OptionFault::NotANumber),
                Some(n) => if min is Some && n < min->Some_0 {
                    Some(OptionFault::BelowMinimum)
                } else {
                    None
                },
            }
        },
        (OptionKind::Bool { .. }, Some(SqlLiteral::Boolean(_))) => None,
        (OptionKind::List, Some(SqlLiteral::SingleQuotedString(_))) => None,
        (_, Some(_)) => Some(OptionFault::Invalid),
        (OptionKind::Text { required, .. }, None) => if required {
            Some(OptionFault::Required)
        } else {
            None
        },
        (OptionKind::Int { required, .. }, None) => if required {
            Some(OptionFault::Required)
        } else {
            None
        },
        (OptionKind::Bool { required, .. }, None) => if required {
            Some(OptionFault::Required)
        } else {
            None
        },
        (OptionKind::List, None) => None,
    }
}

/// Whether `v` is what an option without fault takes given `lit`: the given
/// value, or the default when it is not given (a list has none).
pub open spec fn takes(kind: OptionKind, lit: Option<SqlLiteral>, v: Option<OptionValue>) -> bool {
    match (kind, lit) {
        (OptionKind::Text { .. }, Some(SqlLiteral::SingleQuotedString(s))) => v matches Some(
            OptionValue::Text(t),
        ) && t@ == s@,
        (OptionKind::Text { default_text, .. }, None) => match default_text {
            Some(d) => v matches Some(OptionValue::Text(t)) && t@ == d@,
            None => v is None,
        },
        (OptionKind::Int { .. }, Some(SqlLiteral::Number(t))) => v == Some(
            OptionValue::Number(decimal_u32(t@)->Some_0),
        ),
        (OptionKind::Int { default_number, .. }, None) => v == Some(OptionValue::Number(default_number)),
        (OptionKind::Bool { .. }, Some(SqlLiteral::Boolean(b))) => v == Some(OptionValue::Bool(b)),
        (OptionKind::Bool { default_flag, .. }, None) => v == Some(OptionValue::Bool(default_flag)),
        (OptionKind::List, Some(SqlLiteral::SingleQuotedString(s))) => v matches Some(
            OptionValue::List(items),
        ) && items@.len() == split_on(s@, ',').len() && forall|i: int|
            0 <= i < items@.len() ==> trimmed_from((#[trigger] items@[i])@, split_on(s@, ',')[i]),
        (OptionKind::List, None) => v is None,
        _ => false,
    }
}

/// Whether some option of the table is called `name`.
pub open spec fn known(table: Seq<OptionSpec>, name: Seq<char>) -> bool {
    exists|i: int| 0 <= i < table.len() && (#[trigger] table[i]).name@ == name
}

/// No two options of the table share a name.
pub open spec fn distinct_names(table: Seq<OptionSpec>) -> bool {
    forall|i: int, j: int|
        0 <= i < j < table.len() ==> (#[trigger] table[i]).name@ != (#[trigger] table[j]).name@
}

/// The names given that no option of the table has, in the order given.
pub open spec fn unknown_names(table: Seq<OptionSpec>, raw: Seq<(String, SqlLiteral)>) -> Seq<Seq<char>>
    decreases raw.len(),
{
    if raw.len() == 0 {
        Seq::empty()
    } else {
        let rest = unknown_names(table, raw.drop_last());
        if known(table, raw.last().0@) {
            rest
        } else {
            rest.push(raw.last().0@)
        }
    }
}

pub open spec fn as_literal(lit: Option<&SqlLiteral>) -> Option<SqlLiteral> {
    match lit {
        Some(l) => Some(*l),
        None => None,
    }
}

/// The fault of the `i`-th option of the table, given the options `raw`.
pub open spec fn fault_at(table: Seq<OptionSpec>, raw: Seq<(String, SqlLiteral)>, i: int) -> Option<OptionFault> {
    fault_of(table[i].kind, lookup(raw, table[i].name@))
}

fn find_named<T>(raw: &Vec<(String, T)>, name: &String) -> (r: Option<usize>)
    ensures
        match r {
            Some(j) => j < raw@.len() && lookup(raw@, name@) == Some(raw@[j as int].1),
            None => lookup(raw@, name@) is None,
        },
{
    let mut j: usize = 0;
    assert(raw@.subrange(0, raw@.len() as int) =~= raw@);
    while j < raw.len()
        invariant
            j <= raw@.len(),
            lookup(raw@, name@) == lookup(raw@.subrange(j as int, raw@.len() as int), name@),
        decreases raw@.len() - j,
    {
        assert(raw@.subrange(j as int, raw@.len() as int).drop_first() =~= raw@.subrange(
            j + 1,
            raw@.len() as int,
        ));
        if raw[j].0 == *name {
            return Some(j);
        }
        j = j + 1;
    }
    None
}

fn is_listed(values: &Vec<String>, s: &String) -> (r: bool)
    ensures
        r == listed(values@, s@),
{
    let mut i: usize = 0;
    while i < values.len()
        invariant
            i <= values@.len(),
            forall|k: int| 0 <= k < i ==> (#[trigger] values@[k])@ != s@,
        decreases values@.len() - i,
    {
        if values[i] == *s {
            return true;
        }
        i = i + 1;
    }
    false
}

fn split_and_trim(s: &String) -> (r: Vec<String>)
    ensures
        r@.len() == split_on(s@, ',').len(),
        forall|i: int| 0 <= i < r@.len() ==> trimmed_from((#[trigger] r@[i])@, split_on(s@, ',')[i]),
{
    let pieces = split_text(s.as_str(), ',');
    let mut items: Vec<String> = Vec::new();
    let mut i: usize = 0;
    while i < pieces.len()
        invariant
            i <= pieces@.len(),
            pieces@.len() == split_on(s@, ',').len(),
            forall|k: int| 0 <= k < pieces@.len() ==> (#[trigger] pieces@[k])@ == split_on(s@, ',')[k],
            items@.len() == i,
            forall|k: int| 0 <= k < i ==> trimmed_from((#[trigger] items@[k])@, split_on(s@, ',')[k]),
        decreases pieces@.len() - i,
    {
        items.push(trim_text(pieces[i].as_str()));
        i = i + 1;
    }
    items
}

/// Checks one option given `lit`, and gives the value it takes.
pub fn apply_option(kind: &OptionKind, lit: Option<&SqlLiteral>) -> (r: Result<Option<OptionValue>, OptionFault>)
    ensures
        match r {
            Err(f) => fault_of(*kind, as_literal(lit)) == Some(f),
            Ok(v) => fault_of(*kind, as_literal(lit)) is None && takes(*kind, as_literal(lit), v),
        },
{
    match (kind, lit) {
        (OptionKind::Text { accepted, .. }, Some(SqlLiteral::SingleQuotedString(s))) => {
            match accepted {
                Some(values) => {
                    if !is_listed(values, s) {
                        return Err(OptionFault::NotAccepted);
                    }
                },
                None => {},
            }
            Ok(Some(OptionValue::Text(s.clone())))
        },
        (OptionKind::Int { min, .. }, Some(SqlLiteral::Number(t))) => {
            match parse_u32(t.as_str()) {
                None => Err(OptionFault::NotANumber),
                Some(n) => {
                    match min {
                        Some(m) => {
                            if n < *m {
                                return Err(OptionFault::BelowMinimum);
                            }
                        },
                        None => {},
                    }
                    Ok(Some(OptionValue::Number(n)))
                },
            }
        },
        (OptionKind::Bool { .. }, Some(SqlLiteral::Boolean(b))) => Ok(Some(OptionValue::Bool(*b))),
        (OptionKind::List, Some(SqlLiteral::SingleQuotedString(s))) => Ok(
            Some(OptionValue::List(split_and_trim(s))),
        ),
        (_, Some(_)) => Err(OptionFault::Invalid),
        (OptionKind::Text { default_text, required, .. }, None) => {
            if *required {
                Err(OptionFault::Required)
            } else {
                match default_text {
                    Some(d) => Ok(Some(OptionValue::Text(d.clone()))),
                    None => Ok(None),
                }
            }
        },
        (OptionKind::Int { default_number, required, .. }, None) => {
            if *required {
                Err(OptionFault::Required)
            } else {
                Ok(Some(OptionValue::Number(*default_number)))
            }
        },
        (OptionKind::Bool { default_flag, required }, None) => {
            if *required {
                Err(OptionFault::Required)
            } else {
                Ok(Some(OptionValue::Bool(*default_flag)))
            }
        },
        (OptionKind::List, None) => Ok(None),
    }
}

proof fn lemma_entry_push(opts: Seq<(String, OptionValue)>, x: (String, OptionValue), m: Seq<char>)
    ensures
        lookup(opts.push(x), m) == (if lookup(opts, m) is Some {
            lookup(opts, m)
        } else if x.0@ == m {
            Some(x.1)
        } else {
            None
        }),
    decreases opts.len(),
{
    if opts.len() > 0 {
        assert(opts.push(x)[0] == opts[0]);
        assert(opts.push(x).drop_first() =~= opts.drop_first().push(x));
        lemma_entry_push(opts.drop_first(), x, m);
    } else {
        assert(opts.push(x)[0] == x);
        assert(opts.push(x).drop_first() =~= Seq::<(String, OptionValue)>::empty());
        assert(lookup(Seq::<(String, OptionValue)>::empty(), m) is None);
    }
}

fn is_known(table: &Vec<OptionSpec>, name: &String) -> (r: bool)
    ensures
        r == known(table@, name@),
{
    let mut i: usize = 0;
    while i < table.len()
        invariant
            i <= table@.len(),
            forall|k: int| 0 <= k < i ==> (#[trigger] table@[k]).name@ != name@,
        decreases table@.len() - i,
    {
        if table[i].name == *name {
            return true;
        }
        i = i + 1;
    }
    false
}

fn unknown_options(table: &Vec<OptionSpec>, raw: &Vec<(String, SqlLiteral)>) -> (r: Vec<String>)
    ensures
        r@.len() == unknown_names(table@, raw@).len(),
        forall|k: int| 0 <= k < r@.len() ==> (#[trigger] r@[k])@ == unknown_names(table@, raw@)[k],
{
    let mut names: Vec<String> = Vec::new();
    let mut k: usize = 0;
    while k < raw.len()
        invariant
            k <= raw@.len(),
            names@.len() == unknown_names(table@, raw@.subrange(0, k as int)).len(),
            forall|t: int|
                0 <= t < names@.len() ==> (#[trigger] names@[t])@ == unknown_names(
                    table@,
                    raw@.subrange(0, k as int),
                )[t],
        decreases raw@.len() - k,
    {
        assert(raw@.subrange(0, k + 1).drop_last() =~= raw@.subrange(0, k as int));
        if !is_known(table, &raw[k].0) {
            names.push(raw[k].0.clone());
        }
        k = k + 1;
    }
    assert(raw@.subrange(0, raw@.len() as int) =~= raw@);
    names
}

/// Whether `r` is the outcome of checking the options `raw` against
/// `table`: the fault of the first faulty option in table order; else the
/// unknown names, if any; else, for each option, the value it takes.
pub open spec fn validated(
    table: Seq<OptionSpec>,
    raw: Seq<(String, SqlLiteral)>,
    r: Result<Vec<(String, OptionValue)>, OptionsError>,
) -> bool {
    if exists|i: int| 0 <= i < table.len() && fault_at(table, raw, i) is Some {
        r matches Err(OptionsError::Option { name, fault }) && exists|i: int|
            0 <= i < table.len() && fault_at(table, raw, i) == Some(fault) && name@ == table[i].name@
                && forall|j: int| 0 <= j < i ==> fault_at(table, raw, j) is None
    } else if unknown_names(table, raw).len() > 0 {
        r matches Err(OptionsError::Unknown(names)) && names@.len() == unknown_names(table, raw).len()
            && forall|k: int| 0 <= k < names@.len() ==> (#[trigger] names@[k])@ == unknown_names(table, raw)[k]
    } else {
        r matches Ok(opts) && (forall|i: int|
            0 <= i < table.len() ==> takes(
                (#[trigger] table[i]).kind,
                lookup(raw, table[i].name@),
                lookup(opts@, table[i].name@),
            )) && (forall|k: int| 0 <= k < opts@.len() ==> known(table, (#[trigger] opts@[k]).0@))
            && forall|a: int, b: int|
            0 <= a < b < opts@.len() ==> (#[trigger] opts@[a]).0@ != (#[trigger] opts@[b]).0@
    }
}

proof fn lemma_entry_some(opts: Seq<(String, OptionValue)>, m: Seq<char>)
    ensures
        lookup(opts, m) is Some ==> exists|k: int| 0 <= k < opts.len() && opts[k].0@ == m,
    decreases opts.len(),
{
    if opts.len() > 0 && opts[0].0@ != m {
        lemma_entry_some(opts.drop_first(), m);
        if lookup(opts, m) is Some {
            let k = choose|k: int| 0 <= k < opts.drop_first().len() && opts.drop_first()[k].0@ == m;
            assert(opts[k + 1] == opts.drop_first()[k]);
        }
    }
}

/// Checks the `i`-th option of the table against the options given.
fn check_one(table: &Vec<OptionSpec>, raw: &Vec<(String, SqlLiteral)>, i: usize) -> (r: Result<
    Option<OptionValue>,
    OptionFault,
>)
    requires
        i < table@.len(),
    ensures
        match r {
            Err(f) => fault_at(table@, raw@, i as int) == Some(f),
            Ok(v) => fault_at(table@, raw@, i as int) is None && takes(
                table@[i as int].kind,
                lookup(raw@, table@[i as int].name@),
                v,
            ),
        },
{
    let spec = &table[i];
    let lit = match find_named(raw, &spec.name) {
        Some(j) => Some(&raw[j].1),
        None => None,
    };
    apply_option(&spec.kind, lit)
}

/// Checks the options `raw` against `table`; each option that is given or
/// has a default is taken under its name.
pub fn process_options_with(table: &Vec<OptionSpec>, raw: &Vec<(String, SqlLiteral)>) -> (r: Result<
    Vec<(String, OptionValue)>,
    OptionsError,
>)
    requires
        distinct_names(table@),
    ensures
        validated(table@, raw@, r),
{
    let mut opts: Vec<(String, OptionValue)> = Vec::new();
    let mut i: usize = 0;
    while i < table.len()
        invariant
            i <= table@.len(),
            distinct_names(table@),
            forall|k: int| 0 <= k < i ==> fault_at(table@, raw@, k) is None,
            forall|k: int|
                0 <= k < i ==> takes(
                    (#[trigger] table@[k]).kind,
                    lookup(raw@, table@[k].name@),
                    lookup(opts@, table@[k].name@),
                ),
            forall|k: int|
                0 <= k < opts@.len() ==> exists|j: int|
                    0 <= j < i && table@[j].name@ == (#[trigger] opts@[k]).0@,
            forall|a: int, b: int|
                0 <= a < b < opts@.len() ==> (#[trigger] opts@[a]).0@ != (#[trigger] opts@[b]).0@,
        decreases table@.len() - i,
    {
        let ghost before = opts@;
        proof {
            lemma_entry_some(before, table@[i as int].name@);
            if lookup(before, table@[i as int].name@) is Some {
                let k = choose|k: int| 0 <= k < before.len() && before[k].0@ == table@[i as int].name@;
                let j = choose|j: int| 0 <= j < i && table@[j].name@ == (#[trigger] before[k]).0@;
                assert(table@[j].name@ != table@[i as int].name@);
            }
        }
        match check_one(table, raw, i) {
            Err(fault) => {
                return Err(OptionsError::Option { name: table[i].name.clone(), fault });
            },
            Ok(None) => {},
            Ok(Some(v)) => {
                let pair = (table[i].name.clone(), v);
                proof {
                    lemma_entry_push(before, pair, table@[i as int].name@);
                    assert forall|k: int| 0 <= k < i implies lookup(before.push(pair), table@[k].name@)
                        == lookup(before, table@[k].name@) by {
                        assert(table@[k].name@ != table@[i as int].name@);
                        lemma_entry_push(before, pair, table@[k].name@);
                    }
                }
                proof {
                    assert forall|k: int| 0 <= k < before.len() implies (#[trigger] before[k]).0@
                        != table@[i as int].name@ by {
                        let j = choose|j: int| 0 <= j < i && table@[j].name@ == (#[trigger] before[k]).0@;
                        assert(table@[j].name@ != table@[i as int].name@);
                    }
                }
                opts.push(pair);
                proof {
                    assert forall|a: int, b: int| 0 <= a < b < opts@.len() implies (#[trigger] opts@[a]).0@
                        != (#[trigger] opts@[b]).0@ by {
                        assert(opts@[a] == before[a]);
                        if b < before.len() {
                            assert(opts@[b] == before[b]);
                        }
                    }
                    assert forall|k: int| 0 <= k < opts@.len() implies exists|j: int|
                        0 <= j < i + 1 && table@[j].name@ == (#[trigger] opts@[k]).0@ by {
                        if k < before.len() {
                            assert(opts@[k] == before[k]);
                        } else {
                            assert(opts@[k].0@ == table@[i as int].name@);
                        }
                    }
                }
            },
        }
        assert(takes(table@[i as int].kind, lookup(raw@, table@[i as int].name@), lookup(opts@, table@[i as int].name@)));
        i = i + 1;
    }
    let unknown = unknown_options(table, raw);
    if unknown.len() > 0 {
        return Err(OptionsError::Unknown(unknown));
    }
    Ok(opts)
}

/// Whether `o` is a text option with this name, default, requiredness and
/// accepted values.
pub open spec fn is_text_option(
    o: OptionSpec,
    name: Seq<char>,
    default: Option<Seq<char>>,
    required: bool,
    accepted: Option<Seq<Seq<char>>>,
) -> bool {
    o.name@ == name && match o.kind {
        OptionKind::Text { default_text, required: req, accepted: acc } => {
            &&& req == required
            &&& match default {
                Some(d) => default_text matches Some(t) && t@ == d,
                None => default_text is None,
            }
            &&& match accepted {
                Some(vs) => acc matches Some(v) && v@.len() == vs.len() && forall|k: int|
                    0 <= k < vs.len() ==> (#[trigger] v@[k])@ == vs[k],
                None => acc is None,
            }
        },
        _ => false,
    }
}

/// The options of a query-replication mirror job.
pub open spec fn qrep_table(t: Seq<OptionSpec>) -> bool {
    &&& t.len() == 12
    &&& is_text_option(t[0], "destination_table_name"@, None, true, None)
    &&& is_text_option(t[1], "watermark_column"@, None, false, None)
    &&& is_text_option(t[2], "watermark_table_name"@, None, false, None)
    &&& is_text_option(
        t[3],
        "mode"@,
        Some("append"@),
        false,
        Some(seq!["upsert"@, "append"@, "overwrite"@]),
    )
    &&& t[4].name@ == "unique_key_columns"@ && t[4].kind is List
    &&& is_text_option(t[5], "staging_path"@, Some(""@), false, None)
    &&& t[6].name@ == "parallelism"@ && t[6].kind == (OptionKind::Int {
        min: Some(1),
        default_number: 2,
        required: false,
    })
    &&& t[7].name@ == "refresh_interval"@ && t[7].kind == (OptionKind::Int {
        min: Some(10),
        default_number: 10,
        required: false,
    })
    &&& t[8].name@ == "num_rows_per_partition"@ && t[8].kind == (OptionKind::Int {
        min: Some(1),
        default_number: 50000,
        required: true,
    })
    &&& t[9].name@ == "initial_copy_only"@ && t[9].kind == (OptionKind::Bool {
        default_flag: false,
        required: false,
    })
    &&& t[10].name@ == "setup_watermark_table_on_destination"@ && t[10].kind == (OptionKind::Bool {
        default_flag: false,
        required: false,
    })
    &&& t[11].name@ == "dst_table_full_resync"@ && t[11].kind == (OptionKind::Bool {
        default_flag: false,
        required: false,
    })
}

fn text_option(name: &str, default: Option<&str>, required: bool) -> (r: OptionSpec)
    ensures
        r.name@ == name@,
        r.kind matches OptionKind::Text { default_text, required: req, accepted } && req == required
            && accepted is None && match default {
            Some(d) => default_text matches Some(t) && t@ == d@,
            None => default_text is None,
        },
{
    let default_text = match default {
        Some(d) => Some(String::from_str(d)),
        None => None,
    };
    OptionSpec {
        name: String::from_str(name),
        kind: OptionKind::Text { default_text, required, accepted: None },
    }
}

/// The options of a query-replication mirror job, in the order they are
/// checked.
pub fn qrep_options() -> (r: Vec<OptionSpec>)
    ensures
        qrep_table(r@),
        distinct_names(r@),
{
    let modes = vec![String::from_str("upsert"), String::from_str("append"), String::from_str("overwrite")];
    let mode = OptionSpec {
        name: String::from_str("mode"),
        kind: OptionKind::Text {
            default_text: Some(String::from_str("append")),
            required: false,
            accepted: Some(modes),
        },
    };
    let table = vec![
        text_option("destination_table_name", None, true),
        text_option("watermark_column", None, false),
        text_option("watermark_table_name", None, false),
        mode,
        OptionSpec { name: String::from_str("unique_key_columns"), kind: OptionKind::List },
        text_option("staging_path", Some(""), false),
        OptionSpec {
            name: String::from_str("parallelism"),
            kind: OptionKind::Int { min: Some(1), default_number: 2, required: false },
        },
        OptionSpec {
            name: String::from_str("refresh_interval"),
            kind: OptionKind::Int { min: Some(10), default_number: 10, required: false },
        },
        OptionSpec {
            name: String::from_str("num_rows_per_partition"),
            kind: OptionKind::Int { min: Some(1), default_number: 50000, required: true },
        },
        OptionSpec {
            name: String::from_str("initial_copy_only"),
            kind: OptionKind::Bool { default_flag: false, required: false },
        },
        OptionSpec {
            name: String::from_str("setup_watermark_table_on_destination"),
            kind: OptionKind::Bool { default_flag: false, required: false },
        },
        OptionSpec {
            name: String::from_str("dst_table_full_resync"),
            kind: OptionKind::Bool { default_flag: false, required: false },
        },
    ];
    proof {
        reveal_strlit("destination_table_name");
        reveal_strlit("watermark_column");
        reveal_strlit("watermark_table_name");
        reveal_strlit("mode");
        reveal_strlit("unique_key_columns");
        reveal_strlit("staging_path");
        reveal_strlit("parallelism");
        reveal_strlit("refresh_interval");
        reveal_strlit("num_rows_per_partition");
        reveal_strlit("initial_copy_only");
        reveal_strlit("setup_watermark_table_on_destination");
        reveal_strlit("dst_table_full_resync");
        assert forall|i: int, j: int| 0 <= i < j < table@.len() implies (#[trigger] table@[i]).name@
            != (#[trigger] table@[j]).name@ by {
            if table@[i].name@.len() == table@[j].name@.len() {
                assert(table@[i].name@[0] != table@[j].name@[0]);
            }
        }
    }
    table
}

/// Unique key columns given as one quoted string are taken as its pieces
/// between commas, in order, each piece trimmed: one item per piece.
pub proof fn lemma_key_columns_split(
    table: Seq<OptionSpec>,
    raw: Seq<(String, SqlLiteral)>,
    opts: Vec<(String, OptionValue)>,
    s: String,
)
    requires
        qrep_table(table),
        validated(table, raw, Ok(opts)),
        lookup(raw, "unique_key_columns"@) == Some(SqlLiteral::SingleQuotedString(s)),
    ensures
        lookup(opts@, "unique_key_columns"@) matches Some(OptionValue::List(items)) && items@.len()
            == split_on(s@, ',').len() && forall|i: int|
            0 <= i < items@.len() ==> trimmed_from((#[trigger] items@[i])@, split_on(s@, ',')[i]),
{
    assert(takes(table[4].kind, lookup(raw, table[4].name@), lookup(opts@, table[4].name@)));
}

/// Whether the options taken ask for upsert mode without unique key columns.
pub open spec fn needs_keys(opts: Seq<(String, OptionValue)>) -> bool {
    &&& lookup(opts, "mode"@) matches Some(OptionValue::Text(m)) && m@ == "upsert"@
    &&& match lookup(opts, "unique_key_columns"@) {
        None => true,
        Some(OptionValue::List(keys)) => keys@.len() == 0,
        Some(_) => false,
    }
}

fn lacks_keys(opts: &Vec<(String, OptionValue)>) -> (r: bool)
    ensures
        r == needs_keys(opts@),
{
    let mode_name = String::from_str("mode");
    let upsert = String::from_str("upsert");
    let keys_name = String::from_str("unique_key_columns");
    let is_upsert = match find_named(opts, &mode_name) {
        Some(j) => match &opts[j].1 {
            OptionValue::Text(m) => *m == upsert,
            _ => false,
        },
        None => false,
    };
    if !is_upsert {
        return false;
    }
    match find_named(opts, &keys_name) {
        None => true,
        Some(j) => match &opts[j].1 {
            OptionValue::List(keys) => keys.len() == 0,
            _ => false,
        },
    }
}

/// Checks the options given for a query-replication mirror job: each option
/// of the job is checked in order and takes its value or default; then any
/// option the job does not have is refused; then upsert mode is refused
/// without unique key columns.
pub fn process_options(raw: &Vec<(String, SqlLiteral)>) -> (r: Result<
    Vec<(String, OptionValue)>,
    OptionsError,
>)
    ensures
        exists|table: Seq<OptionSpec>|
            qrep_table(table) && distinct_names(table) && {
                &&& r matches Err(OptionsError::UpsertWithoutKeys) ==> exists|
                    opts: Vec<(String, OptionValue)>,
                | validated(table, raw@, Ok(opts)) && needs_keys(opts@)
                &&& r is Ok ==> validated(table, raw@, r) && !needs_keys(r->Ok_0@)
                &&& (r is Err && !(r->Err_0 is UpsertWithoutKeys)) ==> validated(table, raw@, r)
            },
{
    let table = qrep_options();
    let opts = match process_options_with(&table, raw) {
        Ok(opts) => opts,
        Err(e) => {
            assert(!(e is UpsertWithoutKeys));
            return Err(e);
        },
    };
    if lacks_keys(&opts) {
        return Err(OptionsError::UpsertWithoutKeys);
    }
    Ok(opts)
}

} // verus!
