//! The environment of a judgement: the values of the variables, the binding
//! made last on top.

use vstd::prelude::*;
use vstd::string::*;
use super::lexer::{Token, TokenModel, Tokens, is_at, scan_var, token_views};
use super::value::{Value, ValueModel, value_text};
use crate::error::Error;

verus! {

/// The bindings of a judgement, from the oldest to the newest.
#[derive(Debug, PartialEq)]
pub struct Environment {
    pub stack: Vec<(String, Value)>,
}

/// What an `Environment` stands for: the bindings from the oldest to the
/// newest.
pub type EnvironmentModel = Seq<(Seq<char>, ValueModel)>;

impl View for Environment {
    type V = EnvironmentModel;

    open spec fn view(&self) -> EnvironmentModel
        decreases self,
    {
        Seq::new(
            self.stack.len() as nat,
            |i: int|
                if 0 <= i < self.stack.len() {
                    (self.stack[i].0@, self.stack[i].1@)
                } else {
                    (Seq::empty(), ValueModel::Num(0))
                },
        )
    }
}

/// How many bindings lie above the newest binding of `identifier` among the
/// first `count` bindings, if it is bound there.
pub open spec fn match_loc(environment: EnvironmentModel, count: nat, identifier: Seq<char>) -> Option<
    nat,
>
    decreases count,
{
    if count == 0 || count > environment.len() {
        None
    } else if environment[count - 1].0 == identifier {
        Some(0)
    } else {
        match match_loc(environment, (count - 1) as nat, identifier) {
            Some(above) => Some(above + 1),
            None => None,
        }
    }
}

/// The value of `identifier` among the oldest `count` bindings: that of its
/// newest binding there, if it is bound.
pub open spec fn lookup_in(environment: EnvironmentModel, count: nat, identifier: Seq<char>) -> Option<
    ValueModel,
>
    decreases count,
{
    if count == 0 || count > environment.len() {
        None
    } else if environment[count - 1].0 == identifier {
        Some(environment[count - 1].1)
    } else {
        lookup_in(environment, (count - 1) as nat, identifier)
    }
}

/// The value of `identifier`: that of its newest binding, if it is bound.
pub open spec fn lookup(environment: EnvironmentModel, identifier: Seq<char>) -> Option<ValueModel> {
    lookup_in(environment, environment.len(), identifier)
}

/// The value of a variable is the value of the binding that lies as far
/// below the top as `match_loc` says.
pub proof fn lemma_match_loc_lookup(environment: EnvironmentModel, count: nat, identifier: Seq<char>)
    requires
        count <= environment.len(),
    ensures
        match match_loc(environment, count, identifier) {
            Some(above) => above < count && lookup_in(environment, count, identifier) == Some(
                environment[count - 1 - above].1,
            ),
            None => lookup_in(environment, count, identifier) is None,
        },
    decreases count,
{
    if count > 0 {
        lemma_match_loc_lookup(environment, (count - 1) as nat, identifier);
    }
}

/// The first `count` bindings, written `x = v` and joined by `, `.
pub open spec fn bindings_text(environment: EnvironmentModel, count: nat) -> Seq<char>
    decreases environment, count,
{
    if count == 0 || count > environment.len() {
        Seq::empty()
    } else {
        bindings_text(environment, (count - 1) as nat) + (if count == 1 {
            Seq::<char>::empty()
        } else {
            ", "@
        }) + environment[count - 1].0 + " = "@ + value_text(environment[count - 1].1)
    }
}

/// The environment in front of a judgement: the bindings and `|-`.
pub open spec fn environment_text(environment: EnvironmentModel) -> Seq<char> {
    if environment.len() == 0 {
        "|- "@
    } else {
        bindings_text(environment, environment.len()) + " |- "@
    }
}

/// The value that stands in `s` at position `i`, an integer or a truth
/// value.
pub open spec fn read_value(s: Seq<TokenModel>, i: int) -> Option<ValueModel> {
    if 0 <= i < s.len() {
        match s[i] {
            TokenModel::Int(value) => Some(ValueModel::Num(value)),
            TokenModel::Bool(b) => Some(ValueModel::Bool(b)),
            _ => None,
        }
    } else {
        None
    }
}

/// The binding `x = v` that stands in `s` at position `i`.
pub open spec fn read_entry(s: Seq<TokenModel>, i: int) -> Option<(Seq<char>, ValueModel)> {
    if 0 <= i && i + 2 < s.len() && s[i + 1] == TokenModel::EQ {
        match (s[i], read_value(s, i + 2)) {
            (TokenModel::Var(name), Some(value)) => Some((name, value)),
            _ => None,
        }
    } else {
        None
    }
}

/// The bindings `found`, continued by those that stand in `s` from
/// position `i` on, each behind a comma, up to `|-`; and the position of
/// that `|-`.
pub open spec fn read_entries(s: Seq<TokenModel>, i: int, found: EnvironmentModel) -> Option<
    (EnvironmentModel, int),
>
    decreases s.len() - i,
{
    if 0 <= i < s.len() {
        match s[i] {
            TokenModel::ENV => Some((found, i)),
            TokenModel::COMMA => match read_entry(s, i + 1) {
                Some(entry) => read_entries(s, i + 4, found.push(entry)),
                None => None,
            },
            _ => None,
        }
    } else {
        None
    }
}

/// The environment at the front of `s`, which ends before `|-`, and the
/// position of that `|-`.
pub open spec fn read_environment(s: Seq<TokenModel>) -> Option<(EnvironmentModel, int)> {
    if s.len() > 0 && s[0] == TokenModel::ENV {
        Some((Seq::empty(), 0))
    } else {
        match read_entry(s, 0) {
            Some(entry) => read_entries(s, 3, seq![entry]),
            None => None,
        }
    }
}

impl Clone for Environment {
    fn clone(&self) -> (r: Environment)
        ensures
            r@ == self@,
        decreases self,
    {
        let mut stack: Vec<(String, Value)> = Vec::new();
        let mut i: usize = 0;
        while i < self.stack.len()
            invariant
                i <= self.stack.len(),
                stack.len() == i,
                forall|k: int|
                    0 <= k < i ==> (#[trigger] stack[k]).0@ == self.stack[k].0@ && stack[k].1@
                        == self.stack[k].1@,
            decreases self.stack.len() - i,
        {
            stack.push((self.stack[i].0.clone(), self.stack[i].1.clone()));
            i += 1;
        }
        let r = Environment { stack };
        assert(r@ =~= self@);
        r
    }
}

fn scan_value(tokens: &Vec<Token>, pos: usize) -> (r: Option<Value>)
    ensures
        match read_value(token_views(tokens@), pos as int) {
            Some(value) => r is Some && r->Some_0@ == value,
            None => r is None,
        },
{
    if pos < tokens.len() {
        match &tokens[pos] {
            Token::Int(i) => Some(Value::Num(*i)),
            Token::Bool(b) => Some(Value::Bool(*b)),
            _ => None,
        }
    } else {
        None
    }
}

fn scan_entry(tokens: &Vec<Token>, pos: usize) -> (r: Option<(String, Value)>)
    requires
        pos <= tokens.len(),
    ensures
        match read_entry(token_views(tokens@), pos as int) {
            Some((name, value)) => r is Some && r->Some_0.0@ == name && r->Some_0.1@ == value
                && pos + 3 <= tokens.len(),
            None => r is None,
        },
{
    if tokens.len() - pos < 3 || !is_at(tokens, pos + 1, &Token::EQ) {
        return None;
    }
    match (scan_var(tokens, pos), scan_value(tokens, pos + 2)) {
        (Some(name), Some(value)) => Some((name, value)),
        _ => None,
    }
}

impl Tokens {
    /// Consumes a value from the front: an integer or a truth value. Where
    /// the stream starts with another token, or is empty, nothing is
    /// consumed.
    pub fn consume_val(&mut self) -> (r: Result<Value, Error>)
        ensures
            match read_value(old(self)@, 0) {
                Some(value) => r is Ok && r->Ok_0@ == value && final(self)@ == old(self)@.skip(
                    1,
                ),
                None => r == Err::<Value, Error>(Error::Syntax) && final(self)@ == old(self)@,
            },
    {
        match scan_value(&self.tokens, 0) {
            Some(value) => {
                self.advance(1);
                Ok(value)
            },
            None => Err(Error::Syntax),
        }
    }
}

impl Environment {
    /// Builds the environment at position 0 of the tokens and gives the
    /// position of the `|-` behind it.
    pub fn parse(tokens: &Vec<Token>) -> (r: Result<(Environment, usize), Error>)
        ensures
            match read_environment(token_views(tokens@)) {
                Some((environment, end)) => r is Ok && r->Ok_0.0@ == environment && r->Ok_0.1
                    == end && end < tokens.len(),
                None => r == Err::<(Environment, usize), Error>(Error::Syntax),
            },
    {
        let mut environment = Environment { stack: Vec::new() };
        assert(environment@ =~= Seq::<(Seq<char>, ValueModel)>::empty());
        if is_at(tokens, 0, &Token::ENV) {
            return Ok((environment, 0));
        }
        match scan_entry(tokens, 0) {
            Some((name, value)) => environment.set_val(name, value),
            None => return Err(Error::Syntax),
        }
        assert(environment@ =~= seq![environment@[0]]);
        let mut at: usize = 3;
        loop
            invariant
                at <= tokens.len(),
                read_environment(token_views(tokens@)) == read_entries(
                    token_views(tokens@),
                    at as int,
                    environment@,
                ),
            ensures
                at < tokens.len(),
                read_environment(token_views(tokens@)) == Some((environment@, at as int)),
            decreases tokens.len() - at,
        {
            if is_at(tokens, at, &Token::ENV) {
                break ;
            }
            if !is_at(tokens, at, &Token::COMMA) {
                return Err(Error::Syntax);
            }
            match scan_entry(tokens, at + 1) {
                Some((name, value)) => environment.set_val(name, value),
                None => return Err(Error::Syntax),
            }
            at = at + 4;
        }
        Ok((environment, at))
    }

    /// Builds the environment at the front of the tokens and consumes it,
    /// up to the `|-` behind it.
    pub fn new(tokens: &mut Tokens) -> (r: Result<Environment, Error>)
        ensures
            match read_environment(old(tokens)@) {
                Some((environment, end)) => r is Ok && r->Ok_0@ == environment && final(tokens)@
                    == old(tokens)@.skip(end),
                None => r == Err::<Environment, Error>(Error::Syntax) && final(tokens)@ == old(
                    tokens,
                )@,
            },
    {
        match Environment::parse(&tokens.tokens) {
            Ok((environment, end)) => {
                tokens.advance(end);
                Ok(environment)
            },
            Err(e) => Err(e),
        }
    }

    /// Binds `identifier` to `value`, on top of the bindings that are
    /// there.
    pub fn set_val(&mut self, identifier: String, value: Value)
        ensures
            final(self)@ == old(self)@.push((identifier@, value@)),
    {
        self.stack.push((identifier, value));
        assert(self@ =~= old(self)@.push((identifier@, value@)));
    }

    /// Takes the newest binding off.
    pub fn pop_val(&mut self)
        ensures
            old(self)@.len() == 0 ==> final(self)@ == old(self)@,
            old(self)@.len() > 0 ==> final(self)@ == old(self)@.drop_last(),
    {
        let _ = self.stack.pop();
        assert(self@ =~= if old(self)@.len() > 0 {
            old(self)@.drop_last()
        } else {
            old(self)@
        });
    }

    /// How many bindings lie above the newest binding of `identifier`.
    pub fn get_match_loc(&self, identifier: &String) -> (r: Result<usize, Error>)
        ensures
            match match_loc(self@, self@.len(), identifier@) {
                Some(above) => r == Ok::<usize, Error>(above as usize) && above < self@.len(),
                None => r == Err::<usize, Error>(Error::Undeclared),
            },
    {
        let len = self.stack.len();
        let mut above: usize = 0;
        while above < len
            invariant
                len == self.stack.len(),
                above <= len,
                match_loc(self@, self@.len(), identifier@) == match match_loc(
                    self@,
                    (len - above) as nat,
                    identifier@,
                ) {
                    Some(more) => Some((more + above) as nat),
                    None => None,
                },
            decreases len - above,
        {
            if self.stack[len - 1 - above].0 == *identifier {
                return Ok(above);
            }
            above += 1;
        }
        Err(Error::Undeclared)
    }

    /// The value of `identifier`: that of its newest binding.
    pub fn get_val(&self, identifier: &String) -> (r: Result<Value, Error>)
        ensures
            match lookup(self@, identifier@) {
                Some(value) => r is Ok && r->Ok_0@ == value,
                None => r == Err::<Value, Error>(Error::Undeclared),
            },
    {
        proof {
            lemma_match_loc_lookup(self@, self@.len(), identifier@);
        }
        match self.get_match_loc(identifier) {
            Ok(above) => Ok(self.stack[self.stack.len() - 1 - above].1.clone()),
            Err(e) => Err(e),
        }
    }

    /// Writes the bindings, joined by `, `.
    pub fn bindings_string(&self) -> (s: String)
        ensures
            s@ == bindings_text(self@, self@.len()),
        decreases self,
    {
        let mut s = String::new();
        let mut i: usize = 0;
        while i < self.stack.len()
            invariant
                i <= self.stack.len(),
                s@ == bindings_text(self@, i as nat),
            decreases self.stack.len() - i,
        {
            if i > 0 {
                s.append(", ");
            } else {
                assert(s@ + Seq::<char>::empty() =~= s@);
            }
            s.append(self.stack[i].0.as_str());
            s.append(" = ");
            s.append(self.stack[i].1.to_string().as_str());
            i += 1;
        }
        s
    }

    /// Writes the environment as it stands in front of a judgement.
    pub fn to_string(&self) -> (s: String)
        ensures
            s@ == environment_text(self@),
    {
        if self.stack.len() == 0 {
            String::from_str("|- ")
        } else {
            let mut s = self.bindings_string();
            s.append(" |- ");
            s
        }
    }
}


impl Environment {
    /// The oldest `count` bindings.
    pub fn prefix(&self, count: usize) -> (r: Environment)
        requires
            count <= self@.len(),
        ensures
            r@ == self@.take(count as int),
    {
        let mut stack: Vec<(String, Value)> = Vec::new();
        let mut i: usize = 0;
        while i < count
            invariant
                i <= count <= self.stack.len(),
                stack.len() == i,
                forall|k: int|
                    0 <= k < i ==> (#[trigger] stack[k]).0@ == self.stack[k].0@ && stack[k].1@
                        == self.stack[k].1@,
            decreases count - i,
        {
            stack.push((self.stack[i].0.clone(), self.stack[i].1.clone()));
            i += 1;
        }
        let r = Environment { stack };
        assert(r@ =~= self@.take(count as int));
        r
    }

    /// The number of bindings.
    pub fn len(&self) -> (n: usize)
        ensures
            n == self@.len(),
    {
        self.stack.len()
    }
}

} // verus!
