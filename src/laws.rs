//! Properties of the matching engine, proved over its model.
use vstd::prelude::*;
use crate::config::Config;
use crate::parse::{parse_model, parses_to, run, ParseError, ParseErrorModel};
use crate::schema::{
    Schema, default_values, find_from, lookup, spelled_by, usable, valid_options, OptionModel,
};
use crate::token::{classify_model, TokenModel};
use crate::value::{i32_value, ValueKind, ValueModel};

verus! {

/// The argument that spells the short flag `c`: a dash, then `c`.
pub open spec fn short_arg(c: char) -> Seq<char> {
    seq!['-', c]
}

/// The argument that spells the long flag `l`: two dashes, then `l`.
pub open spec fn long_arg(l: Seq<char>) -> Seq<char> {
    seq!['-', '-'] + l
}

proof fn lemma_find_from_spelled(opts: Seq<OptionModel>, t: TokenModel, i: int)
    requires
        find_from(opts, t, i) is Some,
    ensures
        0 <= find_from(opts, t, i)->0 < opts.len(),
        spelled_by(opts[find_from(opts, t, i)->0], t),
    decreases opts.len() - i,
{
    if 0 <= i < opts.len() && !spelled_by(opts[i], t) {
        lemma_find_from_spelled(opts, t, i + 1);
    }
}

/// The option that a token spells is the one the dispatch table finds.
proof fn lemma_lookup_unique(opts: Seq<OptionModel>, k: int, t: TokenModel, i: int)
    requires
        valid_options(opts),
        0 <= i <= k < opts.len(),
        spelled_by(opts[k], t),
    ensures
        find_from(opts, t, i) == Some(k),
    decreases k - i,
{
    if i < k {
        assert(crate::schema::distinct(opts[i], opts[k]));
        lemma_lookup_unique(opts, k, t, i + 1);
    }
}

/// The default record holds, field by field, the literal defaults of the
/// schema, and parsing an argument list with no flags yields it unchanged.
pub proof fn law_defaults_are_literals(opts: Seq<OptionModel>, program: Seq<char>)
    ensures
        default_values(opts).len() == opts.len(),
        forall|i: int| 0 <= i < opts.len() ==> #[trigger] default_values(opts)[i] == opts[i].default,
        parse_model(opts, seq![program]) == Ok::<Seq<ValueModel>, ParseErrorModel>(
            default_values(opts),
        ),
{
    assert(seq![program].drop_first().len() == 0);
}

/// Parsing is deterministic: two results that each meet the contract of
/// `Config::parse_from` for the same schema and arguments are the same
/// record, or the same error.
pub proof fn law_parse_deterministic(
    schema: &Schema,
    args: &[&str],
    r1: Result<Config, ParseError>,
    r2: Result<Config, ParseError>,
)
    requires
        parses_to(schema, args, r1),
        parses_to(schema, args, r2),
    ensures
        match (r1, r2) {
            (Ok(c1), Ok(c2)) => c1@ == c2@ && c1.names() == c2.names(),
            (Err(e1), Err(e2)) => e1@ == e2@,
            _ => false,
        },
{
}

/// Wherever a flag is expected, the short and the long spelling of one
/// option lead to the same outcome.
pub proof fn law_short_long_equivalent(
    opts: Seq<OptionModel>,
    k: int,
    rest: Seq<Seq<char>>,
    vals: Seq<ValueModel>,
)
    requires
        valid_options(opts),
        0 <= k < opts.len(),
        opts[k].short is Some,
        opts[k].long is Some,
    ensures
        run(opts, seq![short_arg(opts[k].short->0)] + rest, vals) == run(
            opts,
            seq![long_arg(opts[k].long->0)] + rest,
            vals,
        ),
{
    let c = opts[k].short->0;
    let l = opts[k].long->0;
    assert(usable(opts[k]));
    assert(long_arg(l).skip(2) =~= l);
    assert(classify_model(short_arg(c)) == TokenModel::Short(c));
    assert(classify_model(long_arg(l)) == TokenModel::Long(l));
    lemma_lookup_unique(opts, k, TokenModel::Short(c), 0);
    lemma_lookup_unique(opts, k, TokenModel::Long(l), 0);
    let a = seq![short_arg(c)] + rest;
    let b = seq![long_arg(l)] + rest;
    assert(a.drop_first() =~= b.drop_first());
    assert(a.len() == b.len());
    if a.len() >= 2 {
        assert(a.skip(2) =~= b.skip(2));
        assert(a[1] == b[1]);
    }
}

/// A field whose option no argument spells keeps the value it had before
/// the pass.
proof fn lemma_run_keeps_untargeted(
    opts: Seq<OptionModel>,
    toks: Seq<Seq<char>>,
    vals: Seq<ValueModel>,
    j: int,
)
    requires
        0 <= j < opts.len(),
        vals.len() == opts.len(),
        run(opts, toks, vals) is Ok,
        forall|m: int| 0 <= m < toks.len() ==> !spelled_by(opts[j], classify_model(#[trigger] toks[m])),
    ensures
        run(opts, toks, vals)->Ok_0.len() == vals.len(),
        run(opts, toks, vals)->Ok_0[j] == vals[j],
    decreases toks.len(),
{
    if toks.len() > 0 {
        let t = classify_model(toks[0]);
        lemma_find_from_spelled(opts, t, 0);
        let k = lookup(opts, t)->0;
        assert(!spelled_by(opts[j], classify_model(toks[0])));
        if !opts[k].kind().consumes_value() {
            let next = toks.drop_first();
            assert forall|m: int| 0 <= m < next.len() implies !spelled_by(
                opts[j],
                classify_model(#[trigger] next[m]),
            ) by {
                assert(next[m] == toks[m + 1]);
            }
            lemma_run_keeps_untargeted(opts, next, vals.update(k, ValueModel::Flag(true)), j);
        } else {
            let v = opts[k].kind().value_of(toks[1])->0;
            let next = toks.skip(2);
            assert forall|m: int| 0 <= m < next.len() implies !spelled_by(
                opts[j],
                classify_model(#[trigger] next[m]),
            ) by {
                assert(next[m] == toks[m + 2]);
            }
            lemma_run_keeps_untargeted(opts, next, vals.update(k, v), j);
        }
    }
}

/// A successful parse leaves at its literal default every field whose option
/// none of the arguments after the program name spells.
pub proof fn law_untargeted_fields_keep_defaults(
    opts: Seq<OptionModel>,
    args: Seq<Seq<char>>,
    j: int,
)
    requires
        0 <= j < opts.len(),
        parse_model(opts, args) is Ok,
        forall|m: int| 1 <= m < args.len() ==> !spelled_by(opts[j], classify_model(#[trigger] args[m])),
    ensures
        parse_model(opts, args)->Ok_0[j] == opts[j].default,
{
    if args.len() > 0 {
        let toks = args.drop_first();
        assert forall|m: int| 0 <= m < toks.len() implies !spelled_by(
            opts[j],
            classify_model(#[trigger] toks[m]),
        ) by {
            assert(toks[m] == args[m + 1]);
        }
        lemma_run_keeps_untargeted(opts, toks, default_values(opts), j);
    }
}

proof fn lemma_value_overwritten(
    opts: Seq<OptionModel>,
    k: int,
    t1: Seq<char>,
    v1: Seq<char>,
    t2: Seq<char>,
    v2: Seq<char>,
    r: Seq<Seq<char>>,
    vals: Seq<ValueModel>,
)
    requires
        0 <= k < opts.len(),
        vals.len() == opts.len(),
        opts[k].kind().consumes_value(),
        lookup(opts, classify_model(t1)) == Some(k),
        lookup(opts, classify_model(t2)) == Some(k),
        opts[k].kind().value_of(v1) is Some,
        opts[k].kind().value_of(v2) is Some,
    ensures
        run(opts, seq![t1, v1, t2, v2] + r, vals) == run(opts, seq![t2, v2] + r, vals),
        run(opts, seq![t2, v2] + r, vals) == run(
            opts,
            r,
            vals.update(k, opts[k].kind().value_of(v2)->0),
        ),
{
    let x1 = opts[k].kind().value_of(v1)->0;
    let x2 = opts[k].kind().value_of(v2)->0;
    assert(vals.update(k, x1).update(k, x2) =~= vals.update(k, x2));
    let a = seq![t1, v1, t2, v2] + r;
    let b = seq![t2, v2] + r;
    assert(a[0] == t1 && a[1] == v1);
    assert(a.skip(2) =~= b);
    assert(b[0] == t2 && b[1] == v2);
    assert(b.skip(2) =~= r);
    assert(run(opts, a, vals) == run(opts, b, vals.update(k, x1)));
    assert(run(opts, b, vals.update(k, x1)) == run(opts, r, vals.update(k, x1).update(k, x2)));
}

proof fn lemma_flag_overwritten(
    opts: Seq<OptionModel>,
    k: int,
    t1: Seq<char>,
    t2: Seq<char>,
    r: Seq<Seq<char>>,
    vals: Seq<ValueModel>,
)
    requires
        0 <= k < opts.len(),
        vals.len() == opts.len(),
        opts[k].kind() == ValueKind::Flag,
        lookup(opts, classify_model(t1)) == Some(k),
        lookup(opts, classify_model(t2)) == Some(k),
    ensures
        run(opts, seq![t1, t2] + r, vals) == run(opts, seq![t2] + r, vals),
        run(opts, seq![t2] + r, vals) == run(opts, r, vals.update(k, ValueModel::Flag(true))),
{
    let x = ValueModel::Flag(true);
    assert(vals.update(k, x).update(k, x) =~= vals.update(k, x));
    let a = seq![t1, t2] + r;
    let b = seq![t2] + r;
    assert(a[0] == t1);
    assert(a.drop_first() =~= b);
    assert(b[0] == t2);
    assert(b.drop_first() =~= r);
    assert(run(opts, a, vals) == run(opts, b, vals.update(k, x)));
    assert(run(opts, b, vals.update(k, x)) == run(opts, r, vals.update(k, x).update(k, x)));
}

/// Giving a value-taking option twice in a row is the same as giving it
/// only the second time: the second value wins.
pub proof fn law_last_value_wins(
    opts: Seq<OptionModel>,
    k: int,
    t1: Seq<char>,
    v1: Seq<char>,
    t2: Seq<char>,
    v2: Seq<char>,
    rest: Seq<Seq<char>>,
    vals: Seq<ValueModel>,
)
    requires
        valid_options(opts),
        0 <= k < opts.len(),
        vals.len() == opts.len(),
        opts[k].kind().consumes_value(),
        spelled_by(opts[k], classify_model(t1)),
        spelled_by(opts[k], classify_model(t2)),
        opts[k].kind().value_of(v1) is Some,
        opts[k].kind().value_of(v2) is Some,
    ensures
        run(opts, seq![t1, v1, t2, v2] + rest, vals) == run(opts, seq![t2, v2] + rest, vals),
        run(opts, seq![t1, v1, t2, v2], vals) == Ok::<Seq<ValueModel>, ParseErrorModel>(
            vals.update(k, opts[k].kind().value_of(v2)->0),
        ),
{
    lemma_lookup_unique(opts, k, classify_model(t1), 0);
    lemma_lookup_unique(opts, k, classify_model(t2), 0);
    lemma_value_overwritten(opts, k, t1, v1, t2, v2, rest, vals);
    lemma_value_overwritten(opts, k, t1, v1, t2, v2, Seq::empty(), vals);
    assert(seq![t1, v1, t2, v2] + Seq::empty() =~= seq![t1, v1, t2, v2]);
}

/// Giving a switch twice in a row is the same as giving it once: it is set.
pub proof fn law_repeated_flag_sets_once(
    opts: Seq<OptionModel>,
    k: int,
    t1: Seq<char>,
    t2: Seq<char>,
    rest: Seq<Seq<char>>,
    vals: Seq<ValueModel>,
)
    requires
        valid_options(opts),
        0 <= k < opts.len(),
        vals.len() == opts.len(),
        opts[k].kind() == ValueKind::Flag,
        spelled_by(opts[k], classify_model(t1)),
        spelled_by(opts[k], classify_model(t2)),
    ensures
        run(opts, seq![t1, t2] + rest, vals) == run(opts, seq![t2] + rest, vals),
        run(opts, seq![t1, t2], vals) == Ok::<Seq<ValueModel>, ParseErrorModel>(
            vals.update(k, ValueModel::Flag(true)),
        ),
{
    lemma_lookup_unique(opts, k, classify_model(t1), 0);
    lemma_lookup_unique(opts, k, classify_model(t2), 0);
    lemma_flag_overwritten(opts, k, t1, t2, rest, vals);
    lemma_flag_overwritten(opts, k, t1, t2, Seq::empty(), vals);
    assert(seq![t1, t2] + Seq::empty() =~= seq![t1, t2]);
}

/// An integer option followed by a token that is not a base-10 signed
/// 32-bit number stops the pass with `InvalidValue`.
pub proof fn law_non_numeric_integer_is_invalid(
    opts: Seq<OptionModel>,
    k: int,
    t: Seq<char>,
    raw: Seq<char>,
    rest: Seq<Seq<char>>,
    vals: Seq<ValueModel>,
)
    requires
        valid_options(opts),
        0 <= k < opts.len(),
        opts[k].kind() == ValueKind::Integer,
        spelled_by(opts[k], classify_model(t)),
        i32_value(raw) is None,
    ensures
        run(opts, seq![t, raw] + rest, vals) == Err::<Seq<ValueModel>, ParseErrorModel>(
            ParseErrorModel::InvalidValue(opts[k].name, raw),
        ),
{
    lemma_lookup_unique(opts, k, classify_model(t), 0);
    let a = seq![t, raw] + rest;
    assert(a[0] == t && a[1] == raw);
}

/// A value-taking option given as the last argument stops the pass with
/// `MissingValue`.
pub proof fn law_trailing_option_misses_value(
    opts: Seq<OptionModel>,
    k: int,
    t: Seq<char>,
    vals: Seq<ValueModel>,
)
    requires
        valid_options(opts),
        0 <= k < opts.len(),
        opts[k].kind().consumes_value(),
        spelled_by(opts[k], classify_model(t)),
    ensures
        run(opts, seq![t], vals) == Err::<Seq<ValueModel>, ParseErrorModel>(
            ParseErrorModel::MissingValue(opts[k].name),
        ),
{
    lemma_lookup_unique(opts, k, classify_model(t), 0);
}

} // verus!
