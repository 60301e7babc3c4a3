//! The override table: renames and literal type overrides supplied by the
//! caller, and its construction from raw override strings.

use crate::error::{Failure, SchemaError};
use crate::text::{str_eq, to_chars};
use vstd::prelude::*;
use vstd::string::*;

verus! {

/// Model of an override table: two finite lookup tables.
pub struct Overrides {
    /// Source name to emitted name. The key `""` is the fallback title.
    pub rename: Map<Seq<char>, Seq<char>>,
    /// Field name to literal type text.
    pub retype: Map<Seq<char>, Seq<char>>,
}

impl Overrides {
    /// The table without entries.
    pub open spec fn empty() -> Overrides {
        Overrides { rename: Map::empty(), retype: Map::empty() }
    }

    /// This table with `from` renamed to `to`.
    pub open spec fn with_rename(self, from: Seq<char>, to: Seq<char>) -> Overrides {
        Overrides { rename: self.rename.insert(from, to), retype: self.retype }
    }

    /// This table with the type of `field` overridden by `text`.
    pub open spec fn with_type(self, field: Seq<char>, text: Seq<char>) -> Overrides {
        Overrides { rename: self.rename, retype: self.retype.insert(field, text) }
    }
}

/// The lookup table that a list of pairs stands for; a later pair replaces
/// an earlier one with the same key.
pub open spec fn pairs_map(pairs: Seq<(String, String)>) -> Map<Seq<char>, Seq<char>>
    decreases pairs.len(),
{
    if pairs.len() == 0 {
        Map::empty()
    } else {
        pairs_map(pairs.drop_last()).insert(pairs.last().0@, pairs.last().1@)
    }
}

proof fn lemma_pairs_map_hit(pairs: Seq<(String, String)>, key: Seq<char>, i: int)
    requires
        0 <= i < pairs.len(),
        pairs[i].0@ == key,
        forall|j: int| i < j < pairs.len() ==> pairs[j].0@ != key,
    ensures
        pairs_map(pairs).contains_key(key),
        pairs_map(pairs)[key] == pairs[i].1@,
    decreases pairs.len(),
{
    if i < pairs.len() - 1 {
        lemma_pairs_map_hit(pairs.drop_last(), key, i);
    }
}

proof fn lemma_pairs_map_miss(pairs: Seq<(String, String)>, key: Seq<char>)
    requires
        forall|j: int| 0 <= j < pairs.len() ==> pairs[j].0@ != key,
    ensures
        !pairs_map(pairs).contains_key(key),
    decreases pairs.len(),
{
    if pairs.len() > 0 {
        lemma_pairs_map_miss(pairs.drop_last(), key);
    }
}

fn find_pair<'a>(pairs: &'a Vec<(String, String)>, key: &str) -> (r: Option<&'a str>)
    ensures
        match r {
            Some(v) => pairs_map(pairs@).contains_key(key@) && pairs_map(pairs@)[key@] == v@,
            None => !pairs_map(pairs@).contains_key(key@),
        },
{
    let mut i: usize = pairs.len();
    while i > 0
        invariant
            i <= pairs@.len(),
            forall|j: int| i <= j < pairs@.len() ==> pairs@[j].0@ != key@,
        decreases i,
    {
        i -= 1;
        if str_eq(pairs[i].0.as_str(), key) {
            proof {
                lemma_pairs_map_hit(pairs@, key@, i as int);
            }
            return Some(pairs[i].1.as_str());
        }
    }
    proof {
        lemma_pairs_map_miss(pairs@, key@);
    }
    None
}

fn push_pair(pairs: &mut Vec<(String, String)>, key: &str, value: &str)
    ensures
        pairs_map(final(pairs)@) == pairs_map(old(pairs)@).insert(key@, value@),
{
    pairs.push((String::from_str(key), String::from_str(value)));
    assert(pairs@.drop_last() =~= old(pairs)@);
}

/// What one raw override string asks for.
pub enum Entry {
    /// `field=text`: the type of `field` is the literal `text`.
    Retype { field: Seq<char>, text: Seq<char> },
    /// `from->to`: `from` is emitted as `to`.
    Rename { from: Seq<char>, to: Seq<char> },
    /// Neither separator occurs: the string is passed over.
    Ignored,
    /// The separator that decides the kind occurs more than once.
    Malformed,
}

/// Position of the first `c` at or after `from`; `s.len()` if there is none.
pub open spec fn first_char(s: Seq<char>, c: char, from: int) -> int
    decreases s.len() - from,
{
    if from < 0 || from >= s.len() {
        s.len() as int
    } else if s[from] == c {
        from
    } else {
        first_char(s, c, from + 1)
    }
}

/// Position of the first `->` that starts at or after `from`; `s.len()` if
/// there is none.
pub open spec fn first_arrow(s: Seq<char>, from: int) -> int
    decreases s.len() - from,
{
    if from < 0 || from + 1 >= s.len() {
        s.len() as int
    } else if s[from] == '-' && s[from + 1] == '>' {
        from
    } else {
        first_arrow(s, from + 1)
    }
}

/// Reads one raw override string. A string with `=` is a type override and
/// must hold exactly one `=`; otherwise a string with `->` is a rename and
/// must hold exactly one `->`; any other string is passed over.
pub open spec fn classify(s: Seq<char>) -> Entry {
    let e = first_char(s, '=', 0);
    let a = first_arrow(s, 0);
    if e < s.len() {
        if first_char(s, '=', e + 1) < s.len() {
            Entry::Malformed
        } else {
            Entry::Retype { field: s.subrange(0, e), text: s.subrange(e + 1, s.len() as int) }
        }
    } else if a < s.len() {
        if first_arrow(s, a + 2) < s.len() {
            Entry::Malformed
        } else {
            Entry::Rename { from: s.subrange(0, a), to: s.subrange(a + 2, s.len() as int) }
        }
    } else {
        Entry::Ignored
    }
}

/// The table after one raw override string, or the syntax failure.
pub open spec fn with_arg(table: Overrides, arg: Seq<char>) -> Result<Overrides, Failure> {
    match classify(arg) {
        Entry::Retype { field, text } => Ok(table.with_type(field, text)),
        Entry::Rename { from, to } => Ok(table.with_rename(from, to)),
        Entry::Ignored => Ok(table),
        Entry::Malformed => Err(Failure::OverrideSyntax { text: arg }),
    }
}

/// The table after the raw override strings from position `from` on, taken
/// in order; the first malformed string decides the failure.
pub open spec fn with_args(table: Overrides, args: Seq<Seq<char>>, from: int) -> Result<
    Overrides,
    Failure,
>
    decreases args.len() - from,
{
    if from < 0 || from >= args.len() {
        Ok(table)
    } else {
        match with_arg(table, args[from]) {
            Ok(next) => with_args(next, args, from + 1),
            Err(e) => Err(e),
        }
    }
}

/// The table that a caller's raw strings build. The first string is the
/// caller's resource name and is not part of the table.
pub open spec fn table_of(args: Seq<Seq<char>>) -> Result<Overrides, Failure> {
    with_args(Overrides::empty(), args, 1)
}

/// The character sequences of a list of strings.
pub open spec fn texts(args: Seq<String>) -> Seq<Seq<char>> {
    Seq::new(args.len(), |i: int| args[i]@)
}

/// Whether a token is a string literal: it begins and ends with a double
/// quote, which are two characters.
pub open spec fn is_quoted(token: Seq<char>) -> bool {
    token.len() >= 2 && token[0] == '"' && token[token.len() - 1] == '"'
}

/// `done` followed by what stands between the quotes of each string
/// literal among the tokens from position `from` on; other tokens are
/// passed over.
pub open spec fn unquoted(tokens: Seq<Seq<char>>, from: int, done: Seq<Seq<char>>) -> Seq<
    Seq<char>,
>
    decreases tokens.len() - from,
{
    if from < 0 || from >= tokens.len() {
        done
    } else if is_quoted(tokens[from]) {
        unquoted(tokens, from + 1, done.push(tokens[from].subrange(1, tokens[from].len() - 1)))
    } else {
        unquoted(tokens, from + 1, done)
    }
}

/// The resource name among a caller's raw strings: the first of them, or
/// the empty string if there is none.
pub open spec fn resource_of(args: Seq<Seq<char>>) -> Seq<char> {
    if args.len() > 0 {
        args[0]
    } else {
        Seq::empty()
    }
}

fn find_char(chars: &Vec<char>, c: char, from: usize) -> (i: usize)
    requires
        from <= chars@.len(),
    ensures
        i == first_char(chars@, c, from as int),
        from <= i <= chars@.len(),
{
    let mut i: usize = from;
    while i < chars.len()
        invariant
            from <= i <= chars@.len(),
            first_char(chars@, c, from as int) == first_char(chars@, c, i as int),
        decreases chars@.len() - i,
    {
        if chars[i] == c {
            return i;
        }
        i += 1;
    }
    i
}

fn find_arrow(chars: &Vec<char>, from: usize) -> (i: usize)
    requires
        from <= chars@.len(),
    ensures
        i == first_arrow(chars@, from as int),
        from <= i <= chars@.len(),
        i < chars@.len() ==> i + 2 <= chars@.len(),
{
    let n = chars.len();
    let mut i: usize = from;
    while i < n && i + 1 < n
        invariant
            n == chars@.len(),
            from <= i <= n,
            first_arrow(chars@, from as int) == first_arrow(chars@, i as int),
        decreases n - i,
    {
        if chars[i] == '-' && chars[i + 1] == '>' {
            return i;
        }
        i += 1;
    }
    n
}

/// Renames and literal type overrides, looked up by name.
#[derive(Debug)]
pub struct OverrideTable {
    rename: Vec<(String, String)>,
    retype: Vec<(String, String)>,
}

impl View for OverrideTable {
    type V = Overrides;

    closed spec fn view(&self) -> Overrides {
        Overrides { rename: pairs_map(self.rename@), retype: pairs_map(self.retype@) }
    }
}

impl OverrideTable {
    /// The table without entries.
    pub fn new() -> (t: OverrideTable)
        ensures
            t@ == Overrides::empty(),
    {
        OverrideTable { rename: Vec::new(), retype: Vec::new() }
    }

    /// Renames `from` to `to`, replacing an earlier rename of `from`.
    pub fn set_rename(&mut self, from: &str, to: &str)
        ensures
            final(self)@ == old(self)@.with_rename(from@, to@),
    {
        push_pair(&mut self.rename, from, to);
    }

    /// Overrides the type of `field` by the literal `text`, replacing an
    /// earlier override for `field`.
    pub fn set_type(&mut self, field: &str, text: &str)
        ensures
            final(self)@ == old(self)@.with_type(field@, text@),
    {
        push_pair(&mut self.retype, field, text);
    }

    /// The emitted name for `name`, if it is renamed.
    pub fn rename_of(&self, name: &str) -> (r: Option<&str>)
        ensures
            match r {
                Some(v) => self@.rename.contains_key(name@) && self@.rename[name@] == v@,
                None => !self@.rename.contains_key(name@),
            },
    {
        find_pair(&self.rename, name)
    }

    /// The literal type text for `field`, if its type is overridden.
    pub fn type_of(&self, field: &str) -> (r: Option<&str>)
        ensures
            match r {
                Some(v) => self@.retype.contains_key(field@) && self@.retype[field@] == v@,
                None => !self@.retype.contains_key(field@),
            },
    {
        find_pair(&self.retype, field)
    }

    /// Applies one raw override string: `field=type`, `old->new`, or
    /// anything else, which is passed over. On a syntax failure the table
    /// is unchanged.
    pub fn apply(&mut self, arg: &str) -> (r: Result<(), SchemaError>)
        ensures
            match r {
                Ok(_) => with_arg(old(self)@, arg@) == Ok::<Overrides, Failure>(final(self)@),
                Err(e) => with_arg(old(self)@, arg@) == Err::<Overrides, Failure>(e@)
                    && final(self)@ == old(self)@,
            },
    {
        let chars = to_chars(arg);
        let n = chars.len();
        let e = find_char(&chars, '=', 0);
        if e < n {
            if find_char(&chars, '=', e + 1) < n {
                return Err(SchemaError::OverrideSyntax { text: String::from_str(arg) });
            }
            self.set_type(arg.substring_char(0, e), arg.substring_char(e + 1, n));
            return Ok(());
        }
        let a = find_arrow(&chars, 0);
        if a < n {
            if find_arrow(&chars, a + 2) < n {
                return Err(SchemaError::OverrideSyntax { text: String::from_str(arg) });
            }
            self.set_rename(arg.substring_char(0, a), arg.substring_char(a + 2, n));
        }
        Ok(())
    }

    /// Builds the table from a caller's raw strings. The first string is
    /// the caller's resource name and is skipped.
    pub fn from_args(args: &Vec<String>) -> (r: Result<OverrideTable, SchemaError>)
        ensures
            match r {
                Ok(t) => table_of(texts(args@)) == Ok::<Overrides, Failure>(t@),
                Err(e) => table_of(texts(args@)) == Err::<Overrides, Failure>(e@),
            },
    {
        let mut table = OverrideTable::new();
        let mut i: usize = 1;
        while i < args.len()
            invariant
                1 <= i,
                table_of(texts(args@)) == with_args(table@, texts(args@), i as int),
            decreases args@.len() - i,
        {
            match table.apply(args[i].as_str()) {
                Ok(_) => {},
                Err(e) => {
                    return Err(e);
                },
            }
            i += 1;
        }
        Ok(table)
    }
}

/// The raw strings among the tokens of a macro invocation: the contents
/// of its string literals, in order.
pub fn string_arguments(tokens: &Vec<String>) -> (args: Vec<String>)
    ensures
        texts(args@) == unquoted(texts(tokens@), 0, Seq::empty()),
{
    let ghost goal = unquoted(texts(tokens@), 0, Seq::empty());
    let mut args: Vec<String> = Vec::new();
    assert(texts(args@) =~= Seq::empty());
    let mut i: usize = 0;
    while i < tokens.len()
        invariant
            i <= tokens@.len(),
            goal == unquoted(texts(tokens@), i as int, texts(args@)),
        decreases tokens@.len() - i,
    {
        let token = tokens[i].as_str();
        let n = token.unicode_len();
        if n >= 2 && token.get_char(0) == '"' && token.get_char(n - 1) == '"' {
            let ghost before = texts(args@);
            args.push(String::from_str(token.substring_char(1, n - 1)));
            assert(texts(args@) =~= before.push(token@.subrange(1, n - 1)));
        }
        i += 1;
    }
    args
}

/// Reads the tokens of a file macro invocation: the resource name, which
/// is the first string literal, and the override table that the other
/// string literals build.
pub fn json_schema_file_arguments(tokens: &Vec<String>) -> (r: Result<
    (String, OverrideTable),
    SchemaError,
>)
    ensures
        match r {
            Ok(read) => read.0@ == resource_of(unquoted(texts(tokens@), 0, Seq::empty()))
                && table_of(unquoted(texts(tokens@), 0, Seq::empty())) == Ok::<
                Overrides,
                Failure,
            >(read.1@),
            Err(e) => table_of(unquoted(texts(tokens@), 0, Seq::empty())) == Err::<
                Overrides,
                Failure,
            >(e@),
        },
{
    let args = string_arguments(tokens);
    let table = OverrideTable::from_args(&args)?;
    let file_path = if args.len() > 0 {
        args[0].clone()
    } else {
        String::new()
    };
    Ok((file_path, table))
}

} // verus!
