//! The state of a parsing session as plain data, and what each registration
//! does to it.

use vstd::prelude::*;
use crate::error::Fault;
use crate::text::{
    first_index, is_first_at, lemma_first_index_contains, lemma_first_index_is, token, Style,
};
use crate::value::{read_as, Datum, MagicType, Tag};

verus! {

/// A parsing session: the arguments after the program's name, the values
/// of the flags stored so far by name, the positional input if it was
/// captured, and the problems met so far, oldest first.
///
/// The input is kept apart from the flags' values: no flag name reaches it,
/// and no flag can take its place.
pub struct Session {
    pub raw: Seq<Seq<char>>,
    pub values: Map<Seq<char>, Datum>,
    pub input: Option<Seq<char>>,
    pub errors: Seq<Fault>,
}

impl Session {
    /// The session that starts from the process arguments `args`, whose first
    /// is the program's name.
    pub open spec fn start(args: Seq<Seq<char>>) -> Session {
        Session {
            raw: if args.len() > 0 {
                args.skip(1)
            } else {
                args
            },
            values: Map::empty(),
            input: None,
            errors: Seq::empty(),
        }
    }

    /// The session with `datum` stored under `name`.
    pub open spec fn store(self, name: Seq<char>, datum: Datum) -> Session {
        Session { values: self.values.insert(name, datum), ..self }
    }

    /// The session with `fault` added after the problems met so far.
    pub open spec fn fail(self, fault: Fault) -> Session {
        Session { errors: self.errors.push(fault), ..self }
    }

    /// The session after an optional flag `name` of type `tag` is registered.
    ///
    /// Only the first argument that equals the flag's token counts. Without
    /// one nothing changes. The argument after it is read as the flag's
    /// value: it is stored if it reads as one, else a parse problem is
    /// recorded. Where the token is the last argument, a missing value is
    /// recorded.
    pub open spec fn with_flag(self, tag: Tag, name: Seq<char>) -> Session {
        match first_index(self.raw, token(name, Style::Value)) {
            Some(i) => if i + 1 < self.raw.len() {
                match read_as(tag, self.raw[i + 1]) {
                    Some(datum) => self.store(name, datum),
                    None => self.fail(Fault::Parse(name)),
                }
            } else {
                self.fail(Fault::Value(name))
            },
            None => self,
        }
    }

    /// The session after the flag `name` is demanded: where no value is
    /// stored under `name`, a missing flag is recorded.
    pub open spec fn demand(self, name: Seq<char>) -> Session {
        if self.values.contains_key(name) {
            self
        } else {
            self.fail(Fault::Flag(name))
        }
    }

    /// The text that would be read as the value of the flag `name`: what
    /// stands after the first argument that equals the flag's token, if
    /// there is such an argument and it is not the last.
    pub open spec fn following(self, name: Seq<char>) -> Option<Seq<char>> {
        match first_index(self.raw, token(name, Style::Value)) {
            Some(i) => if i + 1 < self.raw.len() {
                Some(self.raw[i + 1])
            } else {
                None
            },
            None => None,
        }
    }

    /// The session after the text that follows the flag `name` is rejected
    /// as its value: a parse problem is recorded, and what is stored stays.
    pub open spec fn reject(self, name: Seq<char>) -> Session {
        self.fail(Fault::Parse(name))
    }

    /// The session after a required flag `name` of type `tag` is registered:
    /// as for an optional one, and then the flag is demanded.
    pub open spec fn with_flag_req(self, tag: Tag, name: Seq<char>) -> Session {
        self.with_flag(tag, name).demand(name)
    }

    /// The session after the solo flag `name` is registered: `true` is stored
    /// under `name` where any argument equals the flag's token.
    pub open spec fn with_flag_solo(self, name: Seq<char>) -> Session {
        if self.raw.contains(token(name, Style::Solo)) {
            self.store(name, Datum::Bool(true))
        } else {
            self
        }
    }

    /// The session after the positional input is registered: the first
    /// argument is captured as the input, and where there is none, a missing
    /// input is recorded.
    pub open spec fn with_input(self) -> Session {
        if self.raw.len() > 0 {
            Session { input: Some(self.raw[0]), ..self }
        } else {
            self.fail(Fault::Input)
        }
    }

    /// The value stored under `name`, if there is one and it is of type `tag`.
    pub open spec fn lookup(self, tag: Tag, name: Seq<char>) -> Option<Datum> {
        if self.values.contains_key(name) && self.values[name].tag() == tag {
            Some(self.values[name])
        } else {
            None
        }
    }

    /// Whether the arguments account for `datum` under the flag `name`: it
    /// is `true` for a solo flag that is among the arguments, or what follows
    /// the flag's token, read as a value of its type.
    pub open spec fn accounts_for(self, name: Seq<char>, datum: Datum) -> bool {
        ||| self.raw.contains(token(name, Style::Solo)) && datum == Datum::Bool(true)
        ||| (self.following(name) matches Some(text) && read_as(datum.tag(), text) == Some(datum))
    }

    /// Whether the arguments account for all that is held: every stored
    /// value belongs to a flag that was found among them, and the input, if
    /// one is held, is the first of them.
    pub open spec fn grounded(self) -> bool {
        &&& forall|name: Seq<char>|
            self.values.contains_key(name) ==> self.accounts_for(name, #[trigger] self.values[name])
        &&& self.input matches Some(text) ==> self.raw.len() > 0 && text == self.raw[0]
    }
}

/// A new session is grounded: it holds nothing.
pub proof fn lemma_start_is_grounded(args: Seq<Seq<char>>)
    ensures
        Session::start(args).grounded(),
{
}

/// A registration keeps a session grounded: whatever it stores was found
/// among the arguments.
pub proof fn lemma_grounded_is_kept(s: Session, tag: Tag, name: Seq<char>)
    requires
        s.grounded(),
    ensures
        s.with_flag(tag, name).grounded(),
        s.with_flag_req(tag, name).grounded(),
        s.with_flag_solo(name).grounded(),
        s.with_input().grounded(),
        s.demand(name).grounded(),
        s.reject(name).grounded(),
{
    assert(s.reject(name).grounded()) by {
        let noted = s.reject(name);
        assert forall|other: Seq<char>| noted.values.contains_key(other) implies noted.accounts_for(
            other,
            #[trigger] noted.values[other],
        ) by {
            assert(s.accounts_for(other, s.values[other]));
        }
    }
    assert(s.demand(name).grounded()) by {
        let asked = s.demand(name);
        assert forall|other: Seq<char>| asked.values.contains_key(other) implies asked.accounts_for(
            other,
            #[trigger] asked.values[other],
        ) by {
            assert(s.accounts_for(other, s.values[other]));
        }
    }
    let one = s.with_flag(tag, name);
    assert(one.grounded()) by {
        assert forall|other: Seq<char>| one.values.contains_key(other) implies one.accounts_for(
            other,
            #[trigger] one.values[other],
        ) by {
            if other != name || one.values == s.values {
                assert(s.accounts_for(other, s.values[other]));
            }
        }
    }
    assert(s.with_flag_req(tag, name).grounded()) by {
        let two = s.with_flag_req(tag, name);
        assert forall|other: Seq<char>| two.values.contains_key(other) implies two.accounts_for(
            other,
            #[trigger] two.values[other],
        ) by {
            assert(one.accounts_for(other, one.values[other]));
        }
    }
    assert(s.with_flag_solo(name).grounded()) by {
        let solo = s.with_flag_solo(name);
        assert forall|other: Seq<char>| solo.values.contains_key(other) implies solo.accounts_for(
            other,
            #[trigger] solo.values[other],
        ) by {
            if other != name || solo.values == s.values {
                assert(s.accounts_for(other, s.values[other]));
            }
        }
    }
    assert(s.with_input().grounded()) by {
        let fed = s.with_input();
        assert forall|other: Seq<char>| fed.values.contains_key(other) implies fed.accounts_for(
            other,
            #[trigger] fed.values[other],
        ) by {
            assert(s.accounts_for(other, s.values[other]));
        }
    }
}

/// A grounded session without arguments holds nothing: no value and no
/// input.
pub proof fn lemma_grounded_without_arguments(s: Session)
    requires
        s.grounded(),
        s.raw.len() == 0,
    ensures
        s.values == Map::<Seq<char>, Datum>::empty(),
        s.input is None,
{
    assert forall|name: Seq<char>| !s.values.contains_key(name) by {
        if s.values.contains_key(name) {
            assert(s.accounts_for(name, s.values[name]));
            lemma_first_index_contains(s.raw, token(name, Style::Value));
        }
    }
    assert(s.values =~= Map::<Seq<char>, Datum>::empty());
}

/// The arguments are never changed by a registration.
pub proof fn lemma_raw_is_kept(s: Session, tag: Tag, name: Seq<char>)
    ensures
        s.with_flag(tag, name).raw == s.raw,
        s.with_flag_req(tag, name).raw == s.raw,
        s.with_flag_solo(name).raw == s.raw,
        s.with_input().raw == s.raw,
        s.demand(name).raw == s.raw,
        s.reject(name).raw == s.raw,
{
}

/// Problems accumulate: a registration keeps those recorded so far, in their
/// order, and adds its own after them.
pub proof fn lemma_errors_are_kept(s: Session, tag: Tag, name: Seq<char>)
    ensures
        s.errors.is_prefix_of(s.with_flag(tag, name).errors),
        s.errors.is_prefix_of(s.with_flag_req(tag, name).errors),
        s.errors.is_prefix_of(s.with_flag_solo(name).errors),
        s.errors.is_prefix_of(s.with_input().errors),
        s.errors.is_prefix_of(s.demand(name).errors),
        s.errors.is_prefix_of(s.reject(name).errors),
{
    assert(s.errors.is_prefix_of(s.demand(name).errors)) by {
        assert(s.errors.push(Fault::Flag(name)).take(s.errors.len() as int) =~= s.errors);
        assert(s.errors.take(s.errors.len() as int) =~= s.errors);
    }
    assert(s.errors.is_prefix_of(s.reject(name).errors)) by {
        assert(s.errors.push(Fault::Parse(name)).take(s.errors.len() as int) =~= s.errors);
    }
    let one = s.with_flag(tag, name);
    assert(s.errors.is_prefix_of(one.errors)) by {
        assert(s.errors.push(Fault::Parse(name)).take(s.errors.len() as int) =~= s.errors);
        assert(s.errors.push(Fault::Value(name)).take(s.errors.len() as int) =~= s.errors);
        assert(s.errors.take(s.errors.len() as int) =~= s.errors);
    }
    assert(s.errors.is_prefix_of(s.with_flag_req(tag, name).errors)) by {
        assert(one.errors.push(Fault::Flag(name)).take(s.errors.len() as int) =~= s.errors);
    }
    assert(s.errors.is_prefix_of(s.with_flag_solo(name).errors)) by {
        assert(s.errors.take(s.errors.len() as int) =~= s.errors);
    }
    assert(s.errors.is_prefix_of(s.with_input().errors)) by {
        assert(s.errors.push(Fault::Input).take(s.errors.len() as int) =~= s.errors);
        assert(s.errors.take(s.errors.len() as int) =~= s.errors);
    }
}

/// Two required flags of which neither is among the arguments nor has a
/// value yet: registering one and then the other records exactly two missing
/// flags, in the order of the calls.
pub proof fn lemma_missing_flags_in_call_order(
    s: Session,
    tag_a: Tag,
    a: Seq<char>,
    tag_b: Tag,
    b: Seq<char>,
)
    requires
        !s.raw.contains(token(a, Style::Value)),
        !s.raw.contains(token(b, Style::Value)),
        !s.values.contains_key(a),
        !s.values.contains_key(b),
    ensures
        s.with_flag_req(tag_a, a).with_flag_req(tag_b, b).errors == s.errors.push(
            Fault::Flag(a),
        ).push(Fault::Flag(b)),
        s.with_flag_req(tag_a, a).with_flag_req(tag_b, b).values == s.values,
{
    lemma_first_index_contains(s.raw, token(a, Style::Value));
    lemma_first_index_contains(s.raw, token(b, Style::Value));
}

/// A value stored as one type is never read as another: where the types `T`
/// and `U` differ, a lookup as `T` of what was stored as `U` finds nothing.
pub proof fn lemma_get_other_type<T: MagicType, U: MagicType>(
    s: Session,
    name: Seq<char>,
    stored: U,
)
    requires
        T::tag() != U::tag(),
    ensures
        s.store(name, stored.datum()).lookup(T::tag(), name) is None,
        s.store(name, stored.datum()).lookup(U::tag(), name) == Some(stored.datum()),
{
    stored.lemma_tag();
}

/// A solo flag whose token is among the arguments reads back as `true`.
pub proof fn lemma_solo_present(s: Session, name: Seq<char>)
    requires
        s.raw.contains(token(name, Style::Solo)),
    ensures
        s.with_flag_solo(name).lookup(Tag::Bool, name) == Some(Datum::Bool(true)),
{
}

/// A solo flag whose token is not among the arguments changes nothing: what
/// was absent stays absent.
pub proof fn lemma_solo_absent(s: Session, name: Seq<char>)
    requires
        !s.raw.contains(token(name, Style::Solo)),
    ensures
        s.with_flag_solo(name) == s,
        s.lookup(Tag::Bool, name) is None ==> s.with_flag_solo(name).lookup(Tag::Bool, name)
            is None,
{
}

/// Only the first occurrence of a flag's token counts. Where a value follows
/// it, whatever stands after that value, further occurrences of the token
/// included, changes neither what is stored nor what is recorded.
pub proof fn lemma_first_occurrence_wins(
    s: Session,
    rest: Seq<Seq<char>>,
    tag: Tag,
    name: Seq<char>,
    i: int,
)
    requires
        is_first_at(s.raw, token(name, Style::Value), i),
        i + 1 < s.raw.len(),
    ensures
        (Session { raw: s.raw + rest, ..s }).with_flag(tag, name).values == s.with_flag(
            tag,
            name,
        ).values,
        (Session { raw: s.raw + rest, ..s }).with_flag(tag, name).errors == s.with_flag(
            tag,
            name,
        ).errors,
        s.with_flag(tag, name) == match read_as(tag, s.raw[i + 1]) {
            Some(datum) => s.store(name, datum),
            None => s.fail(Fault::Parse(name)),
        },
{
    let word = token(name, Style::Value);
    let longer = s.raw + rest;
    lemma_first_index_is(s.raw, word, i);
    assert(is_first_at(longer, word, i)) by {
        assert(longer[i] == s.raw[i]);
        assert forall|j: int| 0 <= j < i implies longer[j] != word by {
            assert(longer[j] == s.raw[j]);
        }
    }
    lemma_first_index_is(longer, word, i);
    assert(longer[i + 1] == s.raw[i + 1]);
}

/// The input and the flags are kept apart: no registration of a flag
/// touches the input, and capturing the input touches no flag's value. So
/// the input that is held is the first argument exactly when it was
/// captured, whatever flags were registered and whatever their names.
pub proof fn lemma_input_is_apart(s: Session, tag: Tag, name: Seq<char>)
    ensures
        s.with_flag(tag, name).input == s.input,
        s.with_flag_req(tag, name).input == s.input,
        s.with_flag_solo(name).input == s.input,
        s.demand(name).input == s.input,
        s.reject(name).input == s.input,
        s.with_input().values == s.values,
        s.with_input().lookup(tag, name) == s.lookup(tag, name),
        s.with_input().input == if s.raw.len() > 0 {
            Some(s.raw[0])
        } else {
            s.input
        },
{
}

/// Capturing the input and registering an optional or a solo flag can be
/// done in either order: the session is the same.
pub proof fn lemma_input_commutes(s: Session, tag: Tag, name: Seq<char>)
    ensures
        s.with_input().with_flag(tag, name) == s.with_flag(tag, name).with_input(),
        s.with_input().with_flag_solo(name) == s.with_flag_solo(name).with_input(),
{
    if s.raw.len() == 0 {
        lemma_first_index_contains(s.raw, token(name, Style::Value));
    }
}

/// Without arguments, registering the positional input records exactly one
/// missing input, and no input is held. This is so of every grounded
/// session: of a new one, and after any registrations.
pub proof fn lemma_input_without_arguments(s: Session)
    requires
        s.grounded(),
        s.raw.len() == 0,
    ensures
        s.with_input().errors == s.errors.push(Fault::Input),
        s.with_input().values == s.values,
        s.with_input().input is None,
{
    lemma_grounded_without_arguments(s);
}

/// An optional flag reads the text that follows its token: the value is
/// stored where the text reads as one of the flag's type, and the text is
/// rejected where it does not.
pub proof fn lemma_flag_reads_following(s: Session, tag: Tag, name: Seq<char>, text: Seq<char>)
    requires
        s.following(name) == Some(text),
    ensures
        s.with_flag(tag, name) == match read_as(tag, text) {
            Some(datum) => s.store(name, datum),
            None => s.reject(name),
        },
{
}

} // verus!
