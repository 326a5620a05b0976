//! Field validation rules of the `Schema` derive: the checks a struct's
//! field attributes ask for, and what running them on field values gives.
use vstd::prelude::*;
use vstd::string::StrSliceExecFns;
use crate::text::{decimal, push_decimal, push_str, seq_contains, contains_str};

verus! {

/// One `#[schema(..)]` attribute item.
#[derive(Debug, Clone)]
pub enum SchemaRule {
    /// `min_len = N`: the text has at least N characters.
    MinLen(u64),
    /// `email`: the text holds an `@`.
    Email,
    /// `regex = "pattern"`: accepted as it stands, not yet checked.
    Regex(String),
    /// `custom = "fn_name"`: the struct's method of that name must succeed.
    Custom(String),
}

/// A check on one field.
#[derive(Debug, Clone)]
pub struct FieldCheck {
    pub field: String,
    pub rule: SchemaRule,
}

/// The checks of the fields, in field order and, within a field, in
/// attribute order.
pub open spec fn checks_of(fields: Seq<(String, Vec<SchemaRule>)>) -> Seq<(Seq<char>, SchemaRule)>
    decreases fields.len(),
{
    if fields.len() == 0 {
        Seq::empty()
    } else {
        checks_of(fields.drop_last()) + fields.last().1@.map_values(|r: SchemaRule| (fields.last().0@, r))
    }
}

/// What a check is about: its field and rule.
pub open spec fn check_view(c: FieldCheck) -> (Seq<char>, SchemaRule) {
    (c.field@, c.rule)
}

/// The checks that the schema attributes of the named fields ask for.
pub fn derive_schema(fields: &Vec<(String, Vec<SchemaRule>)>) -> (checks: Vec<FieldCheck>)
    ensures
        checks@.map_values(|c: FieldCheck| check_view(c)) == checks_of(fields@),
{
    let mut checks: Vec<FieldCheck> = Vec::new();
    let mut i: usize = 0;
    while i < fields.len()
        invariant
            i <= fields@.len(),
            checks@.map_values(|c: FieldCheck| check_view(c)) == checks_of(fields@.take(i as int)),
        decreases fields.len() - i,
    {
        let ghost base = checks@.map_values(|c: FieldCheck| check_view(c));
        let name = &fields[i].0;
        let rules = &fields[i].1;
        let ghost mapped = rules@.map_values(|r: SchemaRule| (name@, r));
        let mut k: usize = 0;
        while k < rules.len()
            invariant
                k <= rules@.len(),
                mapped == rules@.map_values(|r: SchemaRule| (name@, r)),
                checks@.map_values(|c: FieldCheck| check_view(c)) == base + mapped.take(k as int),
            decreases rules.len() - k,
        {
            let rule = match &rules[k] {
                SchemaRule::MinLen(n) => SchemaRule::MinLen(*n),
                SchemaRule::Email => SchemaRule::Email,
                SchemaRule::Regex(p) => SchemaRule::Regex(p.clone()),
                SchemaRule::Custom(f) => SchemaRule::Custom(f.clone()),
            };
            assert(rule == rules@[k as int]);
            let fc = FieldCheck { field: name.clone(), rule };
            assert(check_view(fc) == mapped[k as int]);
            let ghost before = checks@;
            checks.push(fc);
            assert(checks@.map_values(|c: FieldCheck| check_view(c)) =~= before.map_values(
                |c: FieldCheck| check_view(c),
            ).push(check_view(fc)));
            assert(checks@.map_values(|c: FieldCheck| check_view(c)) =~= base + mapped.take(k + 1));
            k = k + 1;
        }
        assert(mapped.take(rules@.len() as int) =~= mapped);
        assert(fields@.take(i + 1).drop_last() =~= fields@.take(i as int));
        assert(fields@.take(i + 1).last() == fields@[i as int]);
        i = i + 1;
    }
    assert(fields@.take(fields@.len() as int) =~= fields@);
    checks
}

/// The outcome of a check on a field value: `custom_error` is what the
/// custom method returned as its error, if it failed.
pub open spec fn check_outcome(c: (Seq<char>, SchemaRule), value: Seq<char>, custom_error: Option<Seq<char>>) -> Result<(), Seq<char>> {
    match c.1 {
        SchemaRule::MinLen(min) => if (value.len() as int) < min {
            Err(c.0 + " is too short (min "@ + decimal(min as nat) + ")"@)
        } else {
            Ok(())
        },
        SchemaRule::Email => if !seq_contains(value, "@"@) {
            Err(c.0 + " must be a valid email"@)
        } else {
            Ok(())
        },
        SchemaRule::Regex(_) => Ok(()),
        SchemaRule::Custom(_) => match custom_error {
            Some(e) => Err(c.0 + ": "@ + e),
            None => Ok(()),
        },
    }
}

/// Runs one check on the value of its field.
pub fn run_check(check: &FieldCheck, value: &str, custom_error: Option<String>) -> (r: Result<(), String>)
    ensures
        match r {
            Ok(()) => check_outcome(check_view(*check), value@, match custom_error { Some(e) => Some(e@), None => None }) is Ok,
            Err(m) => check_outcome(check_view(*check), value@, match custom_error { Some(e) => Some(e@), None => None }) == Err::<(), Seq<char>>(m@),
        },
{
    match &check.rule {
        SchemaRule::MinLen(min) => {
            if (value.unicode_len() as u64) < *min {
                let mut m = check.field.clone();
                push_str(&mut m, " is too short (min ");
                push_decimal(&mut m, *min);
                push_str(&mut m, ")");
                Err(m)
            } else {
                Ok(())
            }
        },
        SchemaRule::Email => {
            if !contains_str(value, "@") {
                let mut m = check.field.clone();
                push_str(&mut m, " must be a valid email");
                Err(m)
            } else {
                Ok(())
            }
        },
        SchemaRule::Regex(_) => Ok(()),
        SchemaRule::Custom(_) => match custom_error {
            Some(e) => {
                let mut m = check.field.clone();
                push_str(&mut m, ": ");
                push_str(&mut m, e.as_str());
                Err(m)
            },
            None => Ok(()),
        },
    }
}


/// What one check runs on: the value of its field and, for a custom check,
/// the error that the struct's method returned (`None` where it succeeded).
#[derive(Debug, Clone)]
pub struct CheckInput {
    pub value: String,
    pub custom_error: Option<String>,
}

/// The text of an optional string.
pub open spec fn opt_text(o: Option<String>) -> Option<Seq<char>> {
    match o {
        Some(s) => Some(s@),
        None => None,
    }
}

/// The outcome of one check on its input.
pub open spec fn input_outcome(item: (FieldCheck, CheckInput)) -> Result<(), Seq<char>> {
    check_outcome(check_view(item.0), item.1.value@, opt_text(item.1.custom_error))
}

/// The outcome of running the checks `items` in order: the first failure,
/// else success.
pub open spec fn validation(items: Seq<(FieldCheck, CheckInput)>) -> Result<(), Seq<char>>
    decreases items.len(),
{
    if items.len() == 0 {
        Ok(())
    } else {
        match input_outcome(items[0]) {
            Err(m) => Err(m),
            Ok(()) => validation(items.drop_first()),
        }
    }
}

/// Validates a struct: runs its checks in order (fields in order, and the
/// attributes of a field in order), each on its input, and answers with the
/// first failure, else success.
pub fn validate(items: &Vec<(FieldCheck, CheckInput)>) -> (r: Result<(), String>)
    ensures
        match r {
            Ok(()) => validation(items@) is Ok,
            Err(m) => validation(items@) == Err::<(), Seq<char>>(m@),
        },
{
    let mut i: usize = 0;
    assert(items@.skip(0) =~= items@);
    while i < items.len()
        invariant
            i <= items@.len(),
            validation(items@) == validation(items@.skip(i as int)),
        decreases items.len() - i,
    {
        let item = &items[i];
        let custom = match &item.1.custom_error {
            Some(e) => Some(e.clone()),
            None => None,
        };
        assert(opt_text(custom) == opt_text(item.1.custom_error));
        let r = run_check(&item.0, item.1.value.as_str(), custom);
        assert(items@.skip(i as int)[0] == items@[i as int]);
        assert(items@.skip(i as int).drop_first() =~= items@.skip(i + 1));
        match r {
            Err(m) => {
                return Err(m);
            },
            Ok(()) => {},
        }
        i = i + 1;
    }
    assert(items@.skip(i as int).len() == 0);
    Ok(())
}

} // verus!
