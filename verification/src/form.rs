//! Form data: the name and value pairs that a redirect form asks to be sent
//! back, and those of the login request. A form holds each name once: setting
//! a name that is there replaces its value.

use vstd::prelude::*;
use crate::pattern::{group, last_value, pairs_of, Groups};
use crate::text::same_text;

verus! {

/// One field of a form.
#[derive(Debug, Clone, PartialEq, Eq)]
pub struct FormField {
    pub name: String,
    pub value: String,
}

impl DeepView for FormField {
    type V = (Seq<char>, Seq<char>);

    open spec fn deep_view(&self) -> (Seq<char>, Seq<char>) {
        (self.name@, self.value@)
    }
}

impl View for FormField {
    type V = (Seq<char>, Seq<char>);

    open spec fn view(&self) -> (Seq<char>, Seq<char>) {
        (self.name@, self.value@)
    }
}

/// The fields of `fields` that are not named `name`, in their order.
pub open spec fn without_name(fields: Seq<(Seq<char>, Seq<char>)>, name: Seq<char>) -> Seq<
    (Seq<char>, Seq<char>),
>
    decreases fields.len(),
{
    if fields.len() == 0 {
        fields
    } else if fields.last().0 == name {
        without_name(fields.drop_last(), name)
    } else {
        without_name(fields.drop_last(), name).push(fields.last())
    }
}

/// `fields` after `name` was set to `value`: the pair replaces the field of
/// its name and takes the last place.
pub open spec fn set_field(fields: Seq<(Seq<char>, Seq<char>)>, name: Seq<char>, value: Seq<char>)
    -> Seq<(Seq<char>, Seq<char>)> {
    without_name(fields, name).push((name, value))
}

/// The form that setting each of `pairs` in turn leaves.
pub open spec fn form_fields(pairs: Seq<(Seq<char>, Seq<char>)>) -> Seq<(Seq<char>, Seq<char>)>
    decreases pairs.len(),
{
    if pairs.len() == 0 {
        pairs
    } else {
        set_field(form_fields(pairs.drop_last()), pairs.last().0, pairs.last().1)
    }
}

/// No two fields have the same name.
pub open spec fn distinct_names(fields: Seq<(Seq<char>, Seq<char>)>) -> bool {
    forall|i: int, j: int|
        0 <= i < j < fields.len() ==> (#[trigger] fields[i]).0 != (#[trigger] fields[j]).0
}

/// Taking a name out leaves only fields that were there, none of that name,
/// and changes the value of no other name.
pub proof fn lemma_without_name(fields: Seq<(Seq<char>, Seq<char>)>, name: Seq<char>)
    ensures
        without_name(fields, name).len() <= fields.len(),
        forall|i: int|
            0 <= i < without_name(fields, name).len() ==> (#[trigger] without_name(
                fields,
                name,
            )[i]).0 != name,
        distinct_names(fields) ==> distinct_names(without_name(fields, name)),
        forall|other: Seq<char>|
            other != name ==> #[trigger] last_value(without_name(fields, name), other)
                == last_value(fields, other),
        forall|i: int|
            0 <= i < without_name(fields, name).len() ==> exists|k: int|
                0 <= k < fields.len() && fields[k] == #[trigger] without_name(fields, name)[i],
    decreases fields.len(),
{
    let out = without_name(fields, name);
    if fields.len() > 0 {
        let front = fields.drop_last();
        let kept = without_name(front, name);
        assert(distinct_names(fields) ==> distinct_names(front));
        lemma_without_name(front, name);
        if fields.last().0 != name {
            assert(out.drop_last() == kept);
        }
        assert forall|i: int| 0 <= i < out.len() implies exists|k: int|
            0 <= k < fields.len() && fields[k] == #[trigger] out[i] by {
            if i < kept.len() {
                let k = choose|k: int| 0 <= k < front.len() && front[k] == kept[i];
                assert(fields[k] == out[i]);
            } else {
                assert(fields[fields.len() - 1] == out[i]);
            }
        }
        assert forall|other: Seq<char>| other != name implies #[trigger] last_value(out, other)
            == last_value(fields, other) by {
            assert(last_value(kept, other) == last_value(front, other));
        }
    }
}

/// Taking out a name that no field has leaves the fields as they are.
pub proof fn lemma_without_absent(fields: Seq<(Seq<char>, Seq<char>)>, name: Seq<char>)
    requires
        forall|i: int| 0 <= i < fields.len() ==> (#[trigger] fields[i]).0 != name,
    ensures
        without_name(fields, name) == fields,
    decreases fields.len(),
{
    if fields.len() > 0 {
        let front = fields.drop_last();
        assert(forall|i: int| 0 <= i < front.len() ==> (#[trigger] front[i]).0 != name);
        lemma_without_absent(front, name);
    }
}

/// Setting a name leaves each name once, gives the name its new value, and
/// changes the value of no other name.
pub proof fn lemma_set_field(
    fields: Seq<(Seq<char>, Seq<char>)>,
    name: Seq<char>,
    value: Seq<char>,
)
    requires
        distinct_names(fields),
    ensures
        distinct_names(set_field(fields, name, value)),
        set_field(fields, name, value).len() <= fields.len() + 1,
        last_value(set_field(fields, name, value), name) == Some(value),
        forall|other: Seq<char>|
            other != name ==> #[trigger] last_value(set_field(fields, name, value), other)
                == last_value(fields, other),
{
    let kept = without_name(fields, name);
    let out = set_field(fields, name, value);
    lemma_without_name(fields, name);
    assert(out.drop_last() == kept);
    assert forall|other: Seq<char>| other != name implies #[trigger] last_value(out, other)
        == last_value(fields, other) by {
        assert(last_value(kept, other) == last_value(fields, other));
    }
}

/// The form that a list of pairs leaves holds each name once, and under each
/// name the value of the last pair of that name.
pub proof fn lemma_form_fields(pairs: Seq<(Seq<char>, Seq<char>)>)
    ensures
        distinct_names(form_fields(pairs)),
        form_fields(pairs).len() <= pairs.len(),
        forall|name: Seq<char>| #[trigger]
            last_value(form_fields(pairs), name) == last_value(pairs, name),
    decreases pairs.len(),
{
    if pairs.len() > 0 {
        let front = pairs.drop_last();
        lemma_form_fields(front);
        lemma_set_field(form_fields(front), pairs.last().0, pairs.last().1);
        lemma_without_name(form_fields(front), pairs.last().0);
    }
}

/// The fields of `fields` that are not named `name`.
fn drop_name(fields: &Vec<FormField>, name: &str) -> (kept: Vec<FormField>)
    ensures
        kept.deep_view() == without_name(fields.deep_view(), name@),
{
    let ghost all = fields.deep_view();
    let mut kept: Vec<FormField> = Vec::new();
    let mut i: usize = 0;
    while i < fields.len()
        invariant
            i <= fields.len(),
            all == fields.deep_view(),
            kept.deep_view() == without_name(all.take(i as int), name@),
        decreases fields.len() - i,
    {
        assert(all.take(i + 1).drop_last() == all.take(i as int));
        let f = &fields[i];
        if !same_text(f.name.as_str(), name) {
            let ghost got = kept.deep_view();
            kept.push(FormField { name: f.name.clone(), value: f.value.clone() });
        }
        i += 1;
    }
    assert(all.take(i as int) == all);
    kept
}

/// The fields of a form, each name once, in the order in which the names were
/// last set.
#[derive(Debug, PartialEq, Eq)]
pub struct Form {
    fields: Vec<FormField>,
}

impl View for Form {
    type V = Seq<(Seq<char>, Seq<char>)>;

    closed spec fn view(&self) -> Seq<(Seq<char>, Seq<char>)> {
        self.fields.deep_view()
    }
}

impl Clone for Form {
    fn clone(&self) -> (copy: Form)
        ensures
            copy@ == self@,
    {
        proof {
            use_type_invariant(self);
        }
        let ghost all = self.fields.deep_view();
        let mut fields: Vec<FormField> = Vec::new();
        let mut i: usize = 0;
        while i < self.fields.len()
            invariant
                i <= self.fields.len(),
                all == self.fields.deep_view(),
                fields.deep_view() == all.take(i as int),
            decreases self.fields.len() - i,
        {
            let f = &self.fields[i];
            let ghost got = fields.deep_view();
            fields.push(FormField { name: f.name.clone(), value: f.value.clone() });
            assert(fields.deep_view() == got.push(all[i as int]));
            i += 1;
        }
        Form { fields }
    }
}

impl Form {
    /// No name occurs twice.
    #[verifier::type_invariant]
    spec fn names_once(self) -> bool {
        distinct_names(self.fields.deep_view())
    }

    /// A form without fields.
    pub fn new() -> (form: Form)
        ensures
            form@ == Seq::<(Seq<char>, Seq<char>)>::empty(),
    {
        let fields: Vec<FormField> = Vec::new();
        Form { fields }
    }

    /// Sets `name` to `value`.
    pub fn set(&mut self, name: String, value: String)
        ensures
            final(self)@ == set_field(old(self)@, name@, value@),
    {
        proof {
            use_type_invariant(&*self);
            lemma_set_field(self.fields.deep_view(), name@, value@);
        }
        let mut fields = drop_name(&self.fields, name.as_str());
        let ghost kept = fields.deep_view();
        fields.push(FormField { name, value });
        assert(fields.deep_view() == kept.push((name@, value@)));
        self.fields = fields;
    }

    /// The fields, each name once.
    pub fn fields(&self) -> (fields: &Vec<FormField>)
        ensures
            fields.deep_view() == self@,
            distinct_names(self@),
    {
        proof {
            use_type_invariant(self);
        }
        &self.fields
    }

    /// The number of fields.
    pub fn len(&self) -> (n: usize)
        ensures
            n == self@.len(),
    {
        self.fields.len()
    }

    /// The value that `name` is set to, if it is set.
    pub fn get(&self, name: &str) -> (value: Option<&str>)
        ensures
            value matches Some(v) ==> last_value(self@, name@) == Some(v@),
            value is None ==> last_value(self@, name@) is None,
    {
        let ghost all = self.fields.deep_view();
        let mut i: usize = self.fields.len();
        assert(all.take(i as int) == all);
        while i > 0
            invariant
                i <= self.fields.len(),
                all == self.fields.deep_view(),
                last_value(all, name@) == last_value(all.take(i as int), name@),
            decreases i,
        {
            i -= 1;
            assert(all.take(i + 1).drop_last() == all.take(i as int));
            if same_text(self.fields[i].name.as_str(), name) {
                return Some(self.fields[i].value.as_str());
            }
        }
        None
    }

    /// The form that setting groups 1 and 2 of each match in turn leaves.
    pub fn from_matches(matches: &Vec<Groups>) -> (form: Form)
        ensures
            form@ == form_fields(pairs_of(matches.deep_view())),
    {
        let ghost pairs = pairs_of(matches.deep_view());
        let mut form = Form::new();
        let mut i: usize = 0;
        while i < matches.len()
            invariant
                i <= matches.len(),
                pairs == pairs_of(matches.deep_view()),
                form@ == form_fields(pairs.take(i as int)),
            decreases matches.len() - i,
        {
            assert(pairs.take(i + 1).drop_last() == pairs.take(i as int));
            form.set(group(&matches[i], 1), group(&matches[i], 2));
            i += 1;
        }
        assert(pairs.take(i as int) == pairs);
        form
    }
}

} // verus!
