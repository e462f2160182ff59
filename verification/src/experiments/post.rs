//! Filling a model from the fields of a submitted form: each field of the
//! model is set once from its bytes, through a conversion that may refuse
//! them, and the model is complete when every field was set.

use vstd::prelude::*;
use vstd::utf8::{valid_utf8, decode_utf8};
use crate::text::{utf8_to_string, str_equal};

verus! {

/// The names that the strings hold.
pub open spec fn names(v: Seq<String>) -> Seq<Seq<char>> {
    v.map_values(|s: String| s@)
}

/// No name occurs twice.
pub open spec fn unique_names(v: Seq<String>) -> bool {
    forall|i: int, j: int| 0 <= i < j < v.len() ==> #[trigger] v[i]@ != #[trigger] v[j]@
}

/// A model whose fields can be set by name from bytes.
pub trait ModelBind: Sized {
    /// The names of the model's fields.
    spec fn field_names() -> Set<Seq<char>>;

    /// Whether `value` is accepted for the field `field`.
    spec fn accepts(field: Seq<char>, value: Seq<u8>) -> bool;

    /// Whether `new` is `old` with the field `field` set from `value`.
    spec fn after_set(old: Self, field: Seq<char>, value: Seq<u8>, new: Self) -> bool;

    /// Whether `m` is the model before any field is set.
    spec fn is_default(m: Self) -> bool;

    /// The model before any field is set.
    fn model_default() -> (r: Self)
        ensures
            Self::is_default(r),
    ;

    /// The names of the fields that must be set.
    fn model_bind() -> (r: Vec<String>)
        ensures
            unique_names(r@),
            names(r@).to_set() == Self::field_names(),
    ;

    /// Sets the field `field` from `value`; a value that is refused leaves
    /// the model as it was.
    fn set_field(&mut self, field: &str, value: Vec<u8>) -> (ok: bool)
        requires
            Self::field_names().contains(field@),
        ensures
            ok == Self::accepts(field@, value@),
            ok ==> Self::after_set(*old(self), field@, value@, *final(self)),
            !ok ==> *final(self) == *old(self),
    ;
}

/// A conversion from `T` that may fail.
pub trait ModelConvert<T>: Sized {
    /// Whether converting `value` may give `r`.
    spec fn converts(value: T, r: Result<Self, ()>) -> bool;

    fn from(value: T) -> (r: Result<Self, ()>)
        ensures
            Self::converts(value, r),
    ;
}

/// The result of setting one field.
#[derive(Debug, Clone, Copy, PartialEq, Eq, Structural)]
pub enum ModelBuilderStatus {
    /// The model has no such field left to set.
    ErrModel,
    /// The value was refused.
    ErrConvert,
    Done,
}

/// A model being filled, with the names of the fields not yet set.
pub struct ModelBuilder<T: ModelBind> {
    model: T,
    map: Vec<String>,
}

impl<T: ModelBind> ModelBuilder<T> {
    /// The model as far as it is filled.
    pub closed spec fn model(&self) -> T {
        self.model
    }

    /// The names of the fields not yet set.
    pub closed spec fn pending(&self) -> Set<Seq<char>> {
        names(self.map@).to_set()
    }

    pub closed spec fn wf(&self) -> bool {
        &&& unique_names(self.map@)
        &&& self.pending().subset_of(T::field_names())
    }

    /// A default model with all its fields pending.
    pub fn new() -> (r: ModelBuilder<T>)
        ensures
            r.wf(),
            T::is_default(r.model()),
            r.pending() == T::field_names(),
    {
        ModelBuilder { model: T::model_default(), map: T::model_bind() }
    }

    /// Sets a pending field from `value`. A field that is not pending is
    /// refused without a change; a pending one stops being pending
    /// whether or not its value is accepted.
    pub fn set(&mut self, field: String, value: Vec<u8>) -> (r: ModelBuilderStatus)
        requires
            old(self).wf(),
        ensures
            final(self).wf(),
            !old(self).pending().contains(field@) ==> r == ModelBuilderStatus::ErrModel
                && final(self).pending() == old(self).pending() && final(self).model() == old(self).model(),
            old(self).pending().contains(field@) ==> {
                &&& final(self).pending() == old(self).pending().remove(field@)
                &&& (r == ModelBuilderStatus::Done) == T::accepts(field@, value@)
                &&& r != ModelBuilderStatus::ErrModel
                &&& r == ModelBuilderStatus::Done ==> T::after_set(old(self).model(), field@, value@, final(self).model())
                &&& r != ModelBuilderStatus::Done ==> final(self).model() == old(self).model()
            },
    {
        let ghost before = self.map@;
        let mut i: usize = 0;
        while i < self.map.len()
            invariant
                i <= self.map@.len(),
                self.map@ == before,
                *self == *old(self),
                before == old(self).map@,
                old(self).wf(),
                forall|k: int| 0 <= k < i ==> self.map@[k]@ != field@,
            decreases self.map@.len() - i,
        {
            if str_equal(self.map[i].as_str(), field.as_str()) {
                let ghost old_names = names(before);
                self.map.remove(i);
                proof {
                    assert(names(self.map@) =~= old_names.remove(i as int));
                    assert(names(self.map@).to_set() =~= old_names.to_set().remove(field@)) by {
                        assert forall|n: Seq<char>| #[trigger] names(self.map@).to_set().contains(n)
                            == old_names.to_set().remove(field@).contains(n) by {
                            if names(self.map@).to_set().contains(n) {
                                let j = choose|j: int| 0 <= j < names(self.map@).len() && names(self.map@)[j] == n;
                                if j < i {
                                    assert(old_names[j] == n);
                                    assert(before[j]@ != before[i as int]@);
                                } else {
                                    assert(old_names[j + 1] == n);
                                    assert(before[i as int]@ != before[j + 1]@);
                                }
                            }
                            if old_names.to_set().remove(field@).contains(n) {
                                let j = choose|j: int| 0 <= j < old_names.len() && old_names[j] == n;
                                if j < i {
                                    assert(names(self.map@)[j] == n);
                                } else if j > i {
                                    assert(names(self.map@)[j - 1] == n);
                                }
                            }
                        }
                    }
                    assert(unique_names(self.map@)) by {
                        assert forall|a: int, b: int| 0 <= a < b < self.map@.len() implies
                            #[trigger] self.map@[a]@ != #[trigger] self.map@[b]@ by {
                            let a2 = if a < i { a } else { a + 1 };
                            let b2 = if b < i { b } else { b + 1 };
                            assert(before[a2]@ != before[b2]@);
                        }
                    }
                    assert(old_names[i as int] == field@);
                    assert(old_names.to_set().contains(field@));
                }
                if self.model.set_field(field.as_str(), value) {
                    return ModelBuilderStatus::Done;
                } else {
                    return ModelBuilderStatus::ErrConvert;
                }
            }
            i = i + 1;
        }
        proof {
            assert(!names(before).to_set().contains(field@)) by {
                if names(before).to_set().contains(field@) {
                    let j = choose|j: int| 0 <= j < names(before).len() && names(before)[j] == field@;
                    assert(before[j]@ == field@);
                }
            }
        }
        ModelBuilderStatus::ErrModel
    }

    /// The model, when every field was set.
    pub fn get(self) -> (r: Option<T>)
        requires
            self.wf(),
        ensures
            r is Some <==> self.pending().is_empty(),
            r matches Some(m) ==> m == self.model(),
    {
        if self.map.len() == 0 {
            proof {
                assert(self.pending() =~= Set::<Seq<char>>::empty());
            }
            Some(self.model)
        } else {
            proof {
                assert(names(self.map@)[0] == self.map@[0]@);
                assert(self.pending().contains(self.map@[0]@));
            }
            None
        }
    }
}

/// A field is set at most once: after it was set, whether its value was
/// accepted or not, it is no longer pending, and setting it again is
/// refused without a change.
pub proof fn lemma_field_set_once(pending: Set<Seq<char>>, field: Seq<char>)
    ensures
        !pending.remove(field).contains(field),
{
}

/// A form field kept as its raw bytes.
#[derive(Debug, Default)]
pub struct PostField {
    pub value: Vec<u8>,
}

impl ModelConvert<Vec<u8>> for PostField {
    /// Every value is accepted.
    open spec fn converts(value: Vec<u8>, r: Result<PostField, ()>) -> bool {
        r matches Ok(f) && f.value@ == value@
    }

    fn from(value: Vec<u8>) -> (r: Result<PostField, ()>) {
        Ok(PostField { value })
    }
}

impl ModelConvert<Vec<u8>> for String {
    /// Accepts exactly the values that are UTF-8, as the text they encode.
    open spec fn converts(value: Vec<u8>, r: Result<String, ()>) -> bool {
        &&& r is Ok <==> valid_utf8(value@)
        &&& r matches Ok(s) ==> s@ == decode_utf8(value@)
    }

    fn from(value: Vec<u8>) -> (r: Result<String, ()>) {
        match utf8_to_string(value.as_slice()) {
            Ok(v) => Ok(v),
            Err(_) => Err(()),
        }
    }
}

/// The names of the login form's fields differ.
proof fn lemma_user_fields_distinct()
    ensures
        "login"@ != "pass"@,
        "login"@ != "bad"@,
        "pass"@ != "bad"@,
{
    reveal_strlit("login");
    reveal_strlit("pass");
    reveal_strlit("bad");
    assert("login"@.len() == 5);
    assert("pass"@.len() == 4);
    assert("bad"@.len() == 3);
}

/// The login form: every field is text.
#[derive(Debug)]
pub struct User {
    pub login: String,
    pub pass: String,
    pub bad: String,
}

impl ModelBind for User {
    open spec fn field_names() -> Set<Seq<char>> {
        set!["login"@, "pass"@, "bad"@]
    }

    open spec fn accepts(field: Seq<char>, value: Seq<u8>) -> bool {
        valid_utf8(value)
    }

    open spec fn after_set(old: User, field: Seq<char>, value: Seq<u8>, new: User) -> bool {
        if field == "login"@ {
            new.login@ == decode_utf8(value) && new.pass == old.pass && new.bad == old.bad
        } else if field == "pass"@ {
            new.pass@ == decode_utf8(value) && new.login == old.login && new.bad == old.bad
        } else {
            new.bad@ == decode_utf8(value) && new.login == old.login && new.pass == old.pass
        }
    }

    open spec fn is_default(m: User) -> bool {
        m.login@ == Seq::<char>::empty() && m.pass@ == Seq::<char>::empty() && m.bad@ == Seq::<char>::empty()
    }

    fn model_default() -> (r: User) {
        User { login: String::new(), pass: String::new(), bad: String::new() }
    }

    fn model_bind() -> (r: Vec<String>) {
        let mut map: Vec<String> = Vec::new();
        map.push(String::from_str("login"));
        map.push(String::from_str("pass"));
        map.push(String::from_str("bad"));
        proof {
            reveal_strlit("login");
            reveal_strlit("pass");
            reveal_strlit("bad");
            lemma_user_fields_distinct();
            assert(names(map@) =~= seq!["login"@, "pass"@, "bad"@]);
            assert(map@[0]@ == "login"@ && map@[1]@ == "pass"@ && map@[2]@ == "bad"@);
            assert(names(map@).to_set() =~= set!["login"@, "pass"@, "bad"@]) by {
                assert(names(map@)[0] == "login"@);
                assert(names(map@)[1] == "pass"@);
                assert(names(map@)[2] == "bad"@);
            }
        }
        map
    }

    fn set_field(&mut self, field: &str, value: Vec<u8>) -> (ok: bool) {
        proof {
            reveal_strlit("login");
            reveal_strlit("pass");
            reveal_strlit("bad");
        }
        match <String as ModelConvert<Vec<u8>>>::from(value) {
            Ok(v) => {
                if str_equal(field, "login") {
                    self.login = v;
                } else if str_equal(field, "pass") {
                    self.pass = v;
                } else {
                    self.bad = v;
                }
                true
            },
            Err(()) => false,
        }
    }
}

/// Fills a `User` from the three fields of the login form; none when one
/// of them is not UTF-8.
pub fn make_model(login: Vec<u8>, pass: Vec<u8>, bad: Vec<u8>) -> (r: Option<User>)
    ensures
        r is Some <==> valid_utf8(login@) && valid_utf8(pass@) && valid_utf8(bad@),
        r matches Some(u) ==> u.login@ == decode_utf8(login@) && u.pass@ == decode_utf8(pass@)
            && u.bad@ == decode_utf8(bad@),
{
    proof {
        reveal_strlit("login");
        reveal_strlit("pass");
        reveal_strlit("bad");
    }
    proof {
        lemma_user_fields_distinct();
    }
    let mut builder: ModelBuilder<User> = ModelBuilder::new();
    let ghost l = login@;
    let ghost p = pass@;
    let ghost b = bad@;
    assert(builder.pending().contains("login"@));
    if builder.set(String::from_str("login"), login) != ModelBuilderStatus::Done {
        return None;
    }
    assert(builder.pending() =~= set!["pass"@, "bad"@]);
    if builder.set(String::from_str("pass"), pass) != ModelBuilderStatus::Done {
        return None;
    }
    assert(builder.pending() =~= set!["bad"@]);
    if builder.set(String::from_str("bad"), bad) != ModelBuilderStatus::Done {
        return None;
    }
    assert(builder.pending() =~= Set::<Seq<char>>::empty());
    builder.get()
}

} // verus!
