//! The argument manager: it owns the arguments, the stored values and the
//! recorded problems of one parsing session.

use vstd::prelude::*;
use vstd::hash_map::StringHashMap;
use crate::error::MagicErr;
use crate::session::Session;
use crate::text::{find_first, format_token, lemma_first_index_contains, Style};
use crate::value::{MagicType, MagicValue};

verus! {

/// The parsing session of one program run.
pub struct MagicArgman {
    raw_args: Vec<String>,
    value_map: StringHashMap<MagicValue>,
    input: Option<String>,
    error: Vec<MagicErr>,
}

impl View for MagicArgman {
    type V = Session;

    closed spec fn view(&self) -> Session {
        Session {
            raw: self.raw_args.deep_view(),
            values: Map::new(
                |name: Seq<char>|
                    self.value_map@.contains_key(name) && self.value_map@[name]@ is Some,
                |name: Seq<char>| self.value_map@[name]@->Some_0,
            ),
            input: match self.input {
                Some(text) => Some(text@),
                None => None,
            },
            errors: self.error.deep_view(),
        }
    }
}

impl MagicArgman {
    /// Starts a session from the process arguments, whose first is the
    /// program's name.
    pub fn new(args: Vec<String>) -> (m: Self)
        ensures
            m@ == Session::start(args.deep_view()),
    {
        let ghost given = args.deep_view();
        let mut args = args;
        if args.len() > 0 {
            args.remove(0);
            assert(args.deep_view() =~= given.skip(1));
        }
        let m = MagicArgman {
            raw_args: args,
            value_map: StringHashMap::new(),
            input: None,
            error: Vec::new(),
        };
        assert(m@.values =~= Map::empty());
        assert(m@.errors =~= Seq::empty());
        m
    }

    /// Registers an optional flag whose value is of type `T`.
    pub fn flag<T: MagicType>(&mut self, flag: &str) -> (ret: &mut Self)
        ensures
            ret@ == old(self)@.with_flag(T::tag(), flag@),
            *final(self) == *final(ret),
    {
        self.flag_setter::<T>(flag);
        self
    }

    /// Looks for the flag's token and stores the value that follows it, or
    /// records why there is none.
    fn flag_setter<T: MagicType>(&mut self, flag: &str)
        ensures
            final(self)@ == old(self)@.with_flag(T::tag(), flag@),
    {
        let formatted_flag = format_token(flag, Style::Value);
        let ghost before = self@;
        match find_first(&self.raw_args, &formatted_flag) {
            Some(index) => {
                if index + 1 < self.raw_args.len() {
                    assert(before.raw[index + 1] == self.raw_args@[index + 1]@);
                    match T::parse(self.raw_args[index + 1].as_str()) {
                        Some(value) => {
                            self.keep(flag, MagicValue::store(value));
                        },
                        None => {
                            self.record(MagicErr::ParseErr(flag.to_owned()));
                        },
                    }
                } else {
                    self.record(MagicErr::ValueErr(flag.to_owned()));
                }
            },
            None => {},
        }
    }

    /// Stores a filled cell under `name`.
    fn keep(&mut self, name: &str, cell: MagicValue)
        requires
            cell@ is Some,
        ensures
            final(self)@ == old(self)@.store(name@, cell@->Some_0),
    {
        self.value_map.insert(name.to_owned(), cell);
        assert(self@.values =~= old(self)@.values.insert(name@, cell@->Some_0));
    }

    /// Adds `e` after the problems recorded so far.
    fn record(&mut self, e: MagicErr)
        ensures
            final(self)@ == old(self)@.fail(e@),
    {
        self.error.push(e);
        assert(self@.errors =~= old(self)@.errors.push(e@));
    }

    /// Registers a required flag whose value is of type `T`.
    pub fn flag_req<T: MagicType>(&mut self, flag: &str) -> (ret: &mut Self)
        ensures
            ret@ == old(self)@.with_flag_req(T::tag(), flag@),
            *final(self) == *final(ret),
    {
        self.flag_setter::<T>(flag);
        self.demand(flag)
    }

    /// Demands the flag: where no value is stored under its name, a missing
    /// flag is recorded.
    pub fn demand(&mut self, flag: &str) -> (ret: &mut Self)
        ensures
            ret@ == old(self)@.demand(flag@),
            *final(self) == *final(ret),
    {
        match self.value_map.get(flag) {
            Some(MagicValue::VALUE(_)) => {},
            _ => {
                self.record(MagicErr::FlagErr(flag.to_owned()));
            },
        }
        self
    }

    /// The text that would be read as the flag's value: what stands after
    /// the first argument that equals the flag's token. Nothing is stored or
    /// recorded.
    pub fn following(&self, flag: &str) -> (r: Option<&String>)
        ensures
            match r {
                Some(text) => self@.following(flag@) == Some(text@),
                None => self@.following(flag@) is None,
            },
    {
        let formatted_flag = format_token(flag, Style::Value);
        match find_first(&self.raw_args, &formatted_flag) {
            Some(index) => {
                if index + 1 < self.raw_args.len() {
                    assert(self@.raw[index + 1] == self.raw_args@[index + 1]@);
                    Some(&self.raw_args[index + 1])
                } else {
                    None
                }
            },
            None => None,
        }
    }

    /// Rejects the text that follows the flag as its value: a parse problem
    /// is recorded, as `flag` records one for a text that it cannot read.
    /// What is stored stays. This is for a caller that reads the text of
    /// `following` as a value of a type of its own.
    pub fn reject(&mut self, flag: &str) -> (ret: &mut Self)
        ensures
            ret@ == old(self)@.reject(flag@),
            *final(self) == *final(ret),
    {
        self.record(MagicErr::ParseErr(flag.to_owned()));
        self
    }

    /// Registers a flag that takes no value.
    pub fn flag_solo(&mut self, flag: &str) -> (ret: &mut Self)
        ensures
            ret@ == old(self)@.with_flag_solo(flag@),
            *final(self) == *final(ret),
    {
        let formatted_flag = format_token(flag, Style::Solo);
        proof {
            lemma_first_index_contains(self@.raw, formatted_flag@);
        }
        if find_first(&self.raw_args, &formatted_flag).is_some() {
            self.keep(flag, MagicValue::store(true));
        }
        self
    }

    /// The value stored under `key`, if there is one and it is of type `T`.
    pub fn get<T: MagicType>(&self, key: &str) -> (r: Option<&T>)
        ensures
            match r {
                Some(v) => self@.lookup(T::tag(), key@) == Some(v.datum()),
                None => self@.lookup(T::tag(), key@) is None,
            },
    {
        match self.value_map.get(key) {
            Some(cell) => cell.opt_unwrap::<T>(),
            None => None,
        }
    }

    /// The problems recorded so far, oldest first.
    pub fn get_errors(&self) -> (r: &Vec<MagicErr>)
        ensures
            r.deep_view() == self@.errors,
            r.len() == self@.errors.len(),
    {
        &self.error
    }

    /// Whether any problem was recorded.
    pub fn error(&self) -> (r: bool)
        ensures
            r == (self@.errors.len() != 0),
    {
        self.error.len() != 0
    }

    /// Registers the positional input: the first argument, as a string. It
    /// is kept apart from the flags' values.
    pub fn input(&mut self) -> (ret: &mut Self)
        ensures
            ret@ == old(self)@.with_input(),
            *final(self) == *final(ret),
    {
        if self.raw_args.len() > 0 {
            let first = self.raw_args[0].clone();
            assert(self@.raw[0] == first@);
            self.input = Some(first);
        } else {
            self.record(MagicErr::InputErr);
        }
        self
    }

    /// The positional input, if it was registered and there was one.
    pub fn get_input(&self) -> (r: Option<&String>)
        ensures
            match r {
                Some(text) => self@.input == Some(text@),
                None => self@.input is None,
            },
    {
        match &self.input {
            Some(text) => Some(text),
            None => None,
        }
    }
}

} // verus!
