//! Option declarations, the schema that holds them, the dispatch from a
//! flag spelling to its option, and the default record.
use vstd::prelude::*;
use crate::config::Config;
use crate::token::{Token, TokenModel};
use crate::value::{OptionValue, ValueKind, ValueModel};

verus! {

/// One declared option: its name, literal default (whose variant fixes the
/// option's kind), and its optional short and long spellings.
#[derive(Clone, Debug)]
pub struct OptionSpec {
    pub(crate) name: String,
    pub(crate) default: OptionValue,
    pub(crate) short: Option<char>,
    pub(crate) long: Option<String>,
}

/// The mathematical model of an option declaration.
pub struct OptionModel {
    pub name: Seq<char>,
    pub default: ValueModel,
    pub short: Option<char>,
    pub long: Option<Seq<char>>,
}

impl OptionModel {
    pub open spec fn kind(self) -> ValueKind {
        self.default.kind()
    }
}

impl View for OptionSpec {
    type V = OptionModel;

    open(crate) spec fn view(&self) -> OptionModel {
        OptionModel {
            name: self.name@,
            default: self.default@,
            short: self.short,
            long: match self.long {
                Some(l) => Some(l@),
                None => None,
            },
        }
    }
}

pub open spec fn long_model(long: Option<&str>) -> Option<Seq<char>> {
    match long {
        Some(l) => Some(l@),
        None => None,
    }
}

impl OptionSpec {
    /// Declares an option with the given default value and spellings.
    pub fn new(name: &str, default: OptionValue, short: Option<char>, long: Option<&str>) -> (o:
        OptionSpec)
        ensures
            o@ == (OptionModel { name: name@, default: default@, short, long: long_model(long) }),
    {
        let long = match long {
            Some(l) => Some(String::from_str(l)),
            None => None,
        };
        OptionSpec { name: String::from_str(name), default, short, long }
    }

    /// Declares a text option.
    pub fn text(name: &str, default: &str, short: Option<char>, long: Option<&str>) -> (o:
        OptionSpec)
        ensures
            o@ == (OptionModel {
                name: name@,
                default: ValueModel::Text(default@),
                short,
                long: long_model(long),
            }),
    {
        OptionSpec::new(name, OptionValue::Text(String::from_str(default)), short, long)
    }

    /// Declares a signed 32-bit integer option.
    pub fn integer(name: &str, default: i32, short: Option<char>, long: Option<&str>) -> (o:
        OptionSpec)
        ensures
            o@ == (OptionModel {
                name: name@,
                default: ValueModel::Integer(default),
                short,
                long: long_model(long),
            }),
    {
        OptionSpec::new(name, OptionValue::Integer(default), short, long)
    }

    /// Declares a boolean flag option.
    pub fn flag(name: &str, default: bool, short: Option<char>, long: Option<&str>) -> (o:
        OptionSpec)
        ensures
            o@ == (OptionModel {
                name: name@,
                default: ValueModel::Flag(default),
                short,
                long: long_model(long),
            }),
    {
        OptionSpec::new(name, OptionValue::Flag(default), short, long)
    }

    /// The option's name.
    pub fn name(&self) -> (r: &str)
        ensures
            r@ == self@.name,
    {
        self.name.as_str()
    }

    /// The option's kind.
    pub fn kind(&self) -> (k: ValueKind)
        ensures
            k == self@.kind(),
    {
        self.default.kind()
    }

    /// The option's literal default.
    pub fn default_value(&self) -> (v: &OptionValue)
        ensures
            v@ == self@.default,
    {
        &self.default
    }

    /// Whether the two options share a name or a spelling.
    fn conflicts_with(&self, other: &OptionSpec) -> (r: bool)
        ensures
            r == !distinct(self@, other@),
            r == !distinct(other@, self@),
    {
        if self.name.eq(&other.name) {
            return true;
        }
        let same_short = match (self.short, other.short) {
            (Some(a), Some(b)) => a == b,
            _ => false,
        };
        let same_long = match (&self.long, &other.long) {
            (Some(a), Some(b)) => a.eq(b),
            _ => false,
        };
        same_short || same_long
    }

    /// Whether `t` is one of this option's spellings.
    fn is_spelled_by(&self, t: &Token) -> (r: bool)
        ensures
            r == spelled_by(self@, t@),
    {
        match t {
            Token::Short(c) => match self.short {
                Some(s) => s == *c,
                None => false,
            },
            Token::Long(l) => match &self.long {
                Some(s) => s.eq(l),
                None => false,
            },
            Token::Value(_) => false,
        }
    }
}

/// Whether the token `t` spells option `o`.
pub open spec fn spelled_by(o: OptionModel, t: TokenModel) -> bool {
    match t {
        TokenModel::Short(c) => o.short == Some(c),
        TokenModel::Long(l) => o.long == Some(l),
        TokenModel::Value(_) => false,
    }
}

/// An option can be reached from the command line: it has at least one
/// spelling, its short spelling is not a dash and its long one is not empty.
pub open spec fn usable(o: OptionModel) -> bool {
    &&& (o.short is Some || o.long is Some)
    &&& o.short != Some('-')
    &&& (o.long matches Some(l) ==> l.len() > 0)
}

/// Two options differ in name and share no spelling.
pub open spec fn distinct(a: OptionModel, b: OptionModel) -> bool {
    &&& a.name != b.name
    &&& (a.short is Some ==> a.short != b.short)
    &&& (a.long is Some ==> a.long != b.long)
}

/// A valid list of declarations: every option is usable, and no two share
/// a name or a spelling.
pub open spec fn valid_options(opts: Seq<OptionModel>) -> bool {
    &&& forall|i: int| 0 <= i < opts.len() ==> usable(#[trigger] opts[i])
    &&& forall|i: int, j: int|
        0 <= i < opts.len() && 0 <= j < opts.len() && i != j ==> distinct(
            #[trigger] opts[i],
            #[trigger] opts[j],
        )
}

/// The first option at or after `i` that `t` spells.
pub open spec fn find_from(opts: Seq<OptionModel>, t: TokenModel, i: int) -> Option<int>
    decreases opts.len() - i,
{
    if i < 0 || i >= opts.len() {
        None
    } else if spelled_by(opts[i], t) {
        Some(i)
    } else {
        find_from(opts, t, i + 1)
    }
}

/// The dispatch table: the option that the token `t` spells, if any.
pub open spec fn lookup(opts: Seq<OptionModel>, t: TokenModel) -> Option<int> {
    find_from(opts, t, 0)
}

/// The values of the default record: each option's literal default.
pub open spec fn default_values(opts: Seq<OptionModel>) -> Seq<ValueModel> {
    Seq::new(opts.len(), |i: int| opts[i].default)
}

/// The field names of a record: the options' names, in order.
pub open spec fn field_names(opts: Seq<OptionModel>) -> Seq<Seq<char>> {
    Seq::new(opts.len(), |i: int| opts[i].name)
}

/// A validated option schema.
#[derive(Clone, Debug)]
pub struct Schema {
    pub(crate) options: Vec<OptionSpec>,
}

impl View for Schema {
    type V = Seq<OptionModel>;

    open(crate) spec fn view(&self) -> Seq<OptionModel> {
        self.options@.map_values(|o: OptionSpec| o@)
    }
}

impl Schema {
    pub open spec fn wf(&self) -> bool {
        valid_options(self@)
    }

    /// Builds a schema from its declarations; `None` where an option has no
    /// usable spelling, or two options share a name or a spelling.
    pub fn new(options: Vec<OptionSpec>) -> (r: Option<Schema>)
        ensures
            r is Some <==> valid_options(options@.map_values(|o: OptionSpec| o@)),
            r matches Some(s) ==> s@ == options@.map_values(|o: OptionSpec| o@),
    {
        let ghost opts = options@.map_values(|o: OptionSpec| o@);
        let n = options.len();
        let mut i: usize = 0;
        while i < n
            invariant
                n == options.len(),
                opts == options@.map_values(|o: OptionSpec| o@),
                i <= n,
                forall|k: int| 0 <= k < i ==> usable(#[trigger] opts[k]),
                forall|k: int, j: int|
                    0 <= k < i && 0 <= j < i && k != j ==> distinct(
                        #[trigger] opts[k],
                        #[trigger] opts[j],
                    ),
            decreases n - i,
        {
            let o = &options[i];
            assert(opts[i as int] == o@);
            let has_short = match o.short {
                Some(c) => {
                    if c == '-' {
                        assert(!usable(opts[i as int]));
                        return None;
                    }
                    true
                },
                None => false,
            };
            let has_long = match &o.long {
                Some(l) => {
                    if l.as_str().unicode_len() == 0 {
                        assert(!usable(opts[i as int]));
                        return None;
                    }
                    true
                },
                None => false,
            };
            if !has_short && !has_long {
                assert(!usable(opts[i as int]));
                return None;
            }
            assert(usable(opts[i as int]));
            let mut j: usize = 0;
            while j < i
                invariant
                    n == options.len(),
                    opts == options@.map_values(|o: OptionSpec| o@),
                    j <= i < n,
                    o == &options@[i as int],
                    forall|k: int| 0 <= k < j ==> #[trigger] distinct(opts[k], opts[i as int])
                        && distinct(opts[i as int], opts[k]),
                decreases i - j,
            {
                let p = &options[j];
                assert(opts[j as int] == p@);
                if p.conflicts_with(o) {
                    assert(!distinct(opts[j as int], opts[i as int]));
                    return None;
                }
                j = j + 1;
            }
            assert forall|k: int, l: int|
                0 <= k < i + 1 && 0 <= l < i + 1 && k != l implies distinct(
                opts[k],
                opts[l],
            ) by {
                if k == i {
                    assert(distinct(opts[l], opts[i as int]));
                } else if l == i {
                    assert(distinct(opts[k], opts[i as int]));
                }
            }
            i = i + 1;
        }
        Some(Schema { options })
    }

    /// The number of declared options.
    pub fn len(&self) -> (n: usize)
        ensures
            n == self@.len(),
    {
        self.options.len()
    }

    /// The declaration at `i`.
    pub fn option(&self, i: usize) -> (o: &OptionSpec)
        requires
            i < self@.len(),
        ensures
            o@ == self@[i as int],
    {
        &self.options[i]
    }

    /// The index of the option that `t` spells, if any.
    pub fn lookup(&self, t: &Token) -> (r: Option<usize>)
        ensures
            match r {
                Some(i) => lookup(self@, t@) == Some(i as int),
                None => lookup(self@, t@) is None,
            },
            r matches Some(i) ==> i < self@.len() && spelled_by(self@[i as int], t@),
    {
        let n = self.options.len();
        let mut i: usize = 0;
        while i < n
            invariant
                n == self@.len(),
                i <= n,
                find_from(self@, t@, 0) == find_from(self@, t@, i as int),
            decreases n - i,
        {
            if self.options[i].is_spelled_by(t) {
                return Some(i);
            }
            i = i + 1;
        }
        None
    }

    /// The default record: every field holds its option's literal default.
    pub fn defaults(&self) -> (c: Config)
        ensures
            c@ == default_values(self@),
            c.names() == field_names(self@),
    {
        let n = self.options.len();
        let mut names: Vec<String> = Vec::new();
        let mut values: Vec<OptionValue> = Vec::new();
        let mut i: usize = 0;
        while i < n
            invariant
                n == self@.len(),
                i <= n,
                names@.len() == i,
                values@.len() == i,
                forall|k: int| 0 <= k < i ==> (#[trigger] names@[k])@ == self@[k].name,
                forall|k: int| 0 <= k < i ==> (#[trigger] values@[k])@ == self@[k].default,
            decreases n - i,
        {
            names.push(self.options[i].name.clone());
            values.push(self.options[i].default.duplicate());
            i = i + 1;
        }
        let c = Config::from_fields(names, values);
        assert(c@ =~= default_values(self@));
        assert(c.names() =~= field_names(self@));
        c
    }
}

} // verus!
