//! The argument matching engine: a single left-to-right pass over the
//! argument tokens that overwrites fields of the default record.
use vstd::prelude::*;
use vstd::string::*;
use crate::config::Config;
use crate::schema::{default_values, field_names, lookup, OptionModel, Schema};
use crate::token::{classify, classify_model};
use crate::value::{OptionValue, ValueModel};

verus! {

/// Why parsing stopped.
#[derive(Clone, Debug)]
pub enum ParseError {
    /// A token that spells no option, kept verbatim.
    UnrecognizedArgument(String),
    /// The named option takes a value, but no token followed it.
    MissingValue(String),
    /// The named option's value token, kept verbatim, does not convert.
    InvalidValue(String, String),
}

/// The mathematical model of a parse error.
pub enum ParseErrorModel {
    UnrecognizedArgument(Seq<char>),
    MissingValue(Seq<char>),
    InvalidValue(Seq<char>, Seq<char>),
}

impl View for ParseError {
    type V = ParseErrorModel;

    open spec fn view(&self) -> ParseErrorModel {
        match self {
            ParseError::UnrecognizedArgument(t) => ParseErrorModel::UnrecognizedArgument(t@),
            ParseError::MissingValue(n) => ParseErrorModel::MissingValue(n@),
            ParseError::InvalidValue(n, raw) => ParseErrorModel::InvalidValue(n@, raw@),
        }
    }
}

/// The outcome of matching the tokens `toks` against `opts`, starting from
/// the field values `vals`: each recognized flag overwrites its field, and
/// the first error stops the pass.
pub open spec fn run(opts: Seq<OptionModel>, toks: Seq<Seq<char>>, vals: Seq<ValueModel>) -> Result<
    Seq<ValueModel>,
    ParseErrorModel,
>
    decreases toks.len(),
{
    if toks.len() == 0 {
        Ok(vals)
    } else {
        match lookup(opts, classify_model(toks[0])) {
            None => Err(ParseErrorModel::UnrecognizedArgument(toks[0])),
            Some(k) => {
                let kind = opts[k].kind();
                if !kind.consumes_value() {
                    run(opts, toks.drop_first(), vals.update(k, ValueModel::Flag(true)))
                } else if toks.len() < 2 {
                    Err(ParseErrorModel::MissingValue(opts[k].name))
                } else {
                    match kind.value_of(toks[1]) {
                        None => Err(ParseErrorModel::InvalidValue(opts[k].name, toks[1])),
                        Some(v) => run(opts, toks.skip(2), vals.update(k, v)),
                    }
                }
            },
        }
    }
}

/// The outcome of parsing the argument list `args`, whose first element
/// names the program and is skipped, starting from the default record.
pub open spec fn parse_model(opts: Seq<OptionModel>, args: Seq<Seq<char>>) -> Result<
    Seq<ValueModel>,
    ParseErrorModel,
> {
    if args.len() == 0 {
        Ok(default_values(opts))
    } else {
        run(opts, args.drop_first(), default_values(opts))
    }
}

/// The characters of each argument.
pub open spec fn arg_seq(args: &[&str]) -> Seq<Seq<char>> {
    args@.map_values(|a: &str| a@)
}

/// `r` is the outcome of parsing `args` against `schema`.
pub open spec fn parses_to(schema: &Schema, args: &[&str], r: Result<Config, ParseError>) -> bool {
    match r {
        Ok(c) => parse_model(schema@, arg_seq(args)) == Ok::<Seq<ValueModel>, ParseErrorModel>(c@)
            && c.names() == field_names(schema@),
        Err(e) => parse_model(schema@, arg_seq(args)) == Err::<Seq<ValueModel>, ParseErrorModel>(
            e@,
        ),
    }
}

impl Config {
    /// Parses `args` (program name first) against `schema`: the default
    /// record with each recognized flag applied in order, or the first error.
    pub fn parse_from(schema: &Schema, args: &[&str]) -> (r: Result<Config, ParseError>)
        ensures
            parses_to(schema, args, r),
    {
        let ghost opts = schema@;
        let ghost toks = arg_seq(args);
        let mut config = schema.defaults();
        let n = args.len();
        if n == 0 {
            return Ok(config);
        }
        let mut i: usize = 1;
        while i < n
            invariant
                opts == schema@,
                toks == arg_seq(args),
                n == args@.len(),
                1 <= i <= n,
                config.names() == field_names(opts),
                config@.len() == opts.len(),
                run(opts, toks.skip(i as int), config@) == parse_model(opts, toks),
            decreases n - i,
        {
            let ghost rest = toks.skip(i as int);
            assert(rest[0] == args@[i as int]@);
            let tok = classify(args[i]);
            match schema.lookup(&tok) {
                None => {
                    return Err(ParseError::UnrecognizedArgument(String::from_str(args[i])));
                },
                Some(k) => {
                    let opt = schema.option(k);
                    let kind = opt.kind();
                    if !kind.takes_value() {
                        assert(rest.drop_first() =~= toks.skip(i + 1));
                        config.set_value(k, OptionValue::Flag(true));
                        i = i + 1;
                    } else if i + 1 >= n {
                        return Err(ParseError::MissingValue(String::from_str(opt.name())));
                    } else {
                        let raw = args[i + 1];
                        assert(rest[1] == raw@);
                        match kind.convert(raw) {
                            None => {
                                return Err(
                                    ParseError::InvalidValue(
                                        String::from_str(opt.name()),
                                        String::from_str(raw),
                                    ),
                                );
                            },
                            Some(v) => {
                                assert(rest.skip(2) =~= toks.skip(i + 2));
                                config.set_value(k, v);
                                i = i + 2;
                            },
                        }
                    }
                },
            }
        }
        assert(toks.skip(i as int) =~= Seq::<Seq<char>>::empty());
        Ok(config)
    }
}

} // verus!
