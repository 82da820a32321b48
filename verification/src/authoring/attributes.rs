//! The arguments of the Plugin attribute.
use vstd::prelude::*;
use vstd::string::*;

use crate::authoring::{refused, AuthoringError};
use crate::text;
use crate::text::opt_text;

verus! {

/// The arguments that were given to the Plugin attribute; files by their path, functions as written.
#[derive(Debug)]
pub struct PluginAttributes {
    pub descriptor: Option<String>,
    pub configuration_schema: Option<String>,
    pub configuration_defaults: Option<String>,
    pub validate: Option<String>,
    pub prepare: Option<String>,
    pub activate: Option<String>,
    pub deactivate: Option<String>,
    pub lifecycle: bool,
    pub consumer: bool,
}

/// What is written behind the name of an argument.
#[derive(Clone, Copy, Debug, PartialEq, Eq, Structural)]
pub enum AttributeForm {
    /// Nothing.
    Flag,
    /// An equals sign and a text.
    Text,
    /// An equals sign and a path.
    Path,
}

/// One argument as it is written.
#[derive(Debug)]
pub struct AttributeEntry {
    pub name: String,
    pub value: String,
}

/// The names of the arguments before a position.
pub open spec fn names_before(entries: Seq<AttributeEntry>, n: int) -> Seq<Seq<char>> {
    Seq::new(n as nat, |i: int| entries[i].name@)
}

/// Why an argument is refused behind others.
pub open spec fn entry_fault(earlier: Seq<Seq<char>>, name: Seq<char>) -> Option<Seq<char>> {
    if form_of(name) is None {
        Some(
            "expected `descriptor`, `configuration_schema`, `configuration_defaults`, `validate`, `prepare`, `activate`, `deactivate`, `lifecycle`, or `consumer`"@,
        )
    } else if earlier.contains(name) {
        Some("duplicate Plugin attribute"@)
    } else {
        None
    }
}

/// Why the first `n` arguments are refused.
pub open spec fn entries_fault(entries: Seq<AttributeEntry>, n: nat) -> Option<Seq<char>>
    decreases n,
{
    if n == 0 {
        None
    } else {
        match entries_fault(entries, (n - 1) as nat) {
            Some(detail) => Some(detail),
            None => entry_fault(names_before(entries, n - 1), entries[n - 1].name@),
        }
    }
}

proof fn fault_stays(entries: Seq<AttributeEntry>, n: nat, m: nat)
    requires
        n <= m,
        entries_fault(entries, n) is Some,
    ensures
        entries_fault(entries, m) == entries_fault(entries, n),
    decreases m,
{
    if n < m {
        fault_stays(entries, n, (m - 1) as nat);
    }
}

/// The form of the argument with a name.
pub open spec fn form_of(name: Seq<char>) -> Option<AttributeForm> {
    if name == "lifecycle"@ || name == "consumer"@ {
        Some(AttributeForm::Flag)
    } else if name == "descriptor"@ || name == "configuration_schema"@ || name == "configuration_defaults"@ {
        Some(AttributeForm::Text)
    } else if name == "validate"@ || name == "prepare"@ || name == "activate"@ || name == "deactivate"@ {
        Some(AttributeForm::Path)
    } else {
        None
    }
}

/// The names of the arguments with a value.
pub open spec fn value_names() -> Seq<Seq<char>> {
    seq![
        "descriptor"@,
        "configuration_schema"@,
        "configuration_defaults"@,
        "validate"@,
        "prepare"@,
        "activate"@,
        "deactivate"@,
    ]
}

proof fn names_differ()
    ensures
        forall|i: int, j: int| 0 <= i < j < 7 ==> #[trigger] value_names()[i] != #[trigger] value_names()[j],
        forall|i: int| 0 <= i < 7 ==> #[trigger] value_names()[i] != "lifecycle"@ && value_names()[i] != "consumer"@,
        "lifecycle"@ != "consumer"@,
{
    reveal_strlit("descriptor");
    reveal_strlit("configuration_schema");
    reveal_strlit("configuration_defaults");
    reveal_strlit("validate");
    reveal_strlit("prepare");
    reveal_strlit("activate");
    reveal_strlit("deactivate");
    reveal_strlit("lifecycle");
    reveal_strlit("consumer");
    assert("descriptor"@.len() == 10 && "configuration_schema"@.len() == 20 && "configuration_defaults"@.len() == 22);
    assert("validate"@.len() == 8 && "prepare"@.len() == 7 && "activate"@.len() == 8 && "deactivate"@.len() == 10);
    assert("lifecycle"@.len() == 9 && "consumer"@.len() == 8);
    assert("validate"@[0] == 'v' && "activate"@[0] == 'a' && "consumer"@[0] == 'c');
    assert("descriptor"@[2] == 's' && "deactivate"@[2] == 'a');
    assert(value_names()[0] == "descriptor"@ && value_names()[1] == "configuration_schema"@ && value_names()[2] == "configuration_defaults"@);
    assert(value_names()[3] == "validate"@ && value_names()[4] == "prepare"@ && value_names()[5] == "activate"@ && value_names()[6]
        == "deactivate"@);
}

impl PluginAttributes {
    /// The value of the argument with a name.
    pub open spec fn value(self, name: Seq<char>) -> Option<Seq<char>> {
        if name == "descriptor"@ {
            opt_text(self.descriptor)
        } else if name == "configuration_schema"@ {
            opt_text(self.configuration_schema)
        } else if name == "configuration_defaults"@ {
            opt_text(self.configuration_defaults)
        } else if name == "validate"@ {
            opt_text(self.validate)
        } else if name == "prepare"@ {
            opt_text(self.prepare)
        } else if name == "activate"@ {
            opt_text(self.activate)
        } else if name == "deactivate"@ {
            opt_text(self.deactivate)
        } else {
            None
        }
    }

    /// The argument with a name was given.
    pub open spec fn given(self, name: Seq<char>) -> bool {
        if name == "lifecycle"@ {
            self.lifecycle
        } else if name == "consumer"@ {
            self.consumer
        } else {
            self.value(name) is Some
        }
    }

    /// No arguments.
    pub fn new() -> (r: Self)
        ensures
            forall|name: Seq<char>| !#[trigger] r.given(name),
    {
        PluginAttributes {
            descriptor: None,
            configuration_schema: None,
            configuration_defaults: None,
            validate: None,
            prepare: None,
            activate: None,
            deactivate: None,
            lifecycle: false,
            consumer: false,
        }
    }

    /// Reads the arguments in the order in which they are written. What stands behind a flag is not looked at.
    pub fn parse(entries: Vec<AttributeEntry>) -> (r: Result<Self, AuthoringError>)
        ensures
            match entries_fault(entries@, entries@.len()) {
                Some(detail) => r is Err && r->Err_0@ == detail,
                None => {
                    &&& r is Ok
                    &&& forall|name: Seq<char>| #[trigger] r->Ok_0.given(name) == names_before(entries@, entries@.len() as int).contains(name)
                    &&& forall|i: int|
                        0 <= i < entries@.len() && form_of(entries@[i].name@) != Some(AttributeForm::Flag)
                            ==> r->Ok_0.value((#[trigger] entries@[i]).name@) == Some(entries@[i].value@)
                },
            },
    {
        let mut r = PluginAttributes::new();
        let mut i: usize = 0;
        while i < entries.len()
            invariant
                i <= entries.len(),
                entries_fault(entries@, i as nat) is None,
                forall|name: Seq<char>| #[trigger] r.given(name) == names_before(entries@, i as int).contains(name),
                forall|k: int|
                    0 <= k < i && form_of(entries@[k].name@) != Some(AttributeForm::Flag) ==> r.value((#[trigger] entries@[k]).name@) == Some(
                        entries@[k].value@,
                    ),
            decreases entries.len() - i,
        {
            let entry = &entries[i];
            let ghost before = r;
            let ghost names = names_before(entries@, i as int);
            let expected = r.expect(entry.name.as_str());
            proof {
                assert(entries_fault(entries@, (i + 1) as nat) == entry_fault(names, entry.name@));
                if expected is Err {
                    fault_stays(entries@, (i + 1) as nat, entries@.len());
                }
                assert(names_before(entries@, i + 1) =~= names.push(entry.name@));
            }
            match expected {
                Err(error) => return Err(error),
                Ok(AttributeForm::Flag) => r.set_flag(entry.name.as_str()),
                Ok(_) => r.set_value(entry.name.as_str(), entry.value.clone()),
            }
            proof {
                assert forall|name: Seq<char>| #[trigger] r.given(name) == names.push(entry.name@).contains(name) by {
                    assert(r.given(name) == (before.given(name) || name == entry.name@));
                    assert(before.given(name) == names.contains(name));
                    if names.contains(name) {
                        let k = choose|k: int| 0 <= k < names.len() && names[k] == name;
                        assert(names.push(entry.name@)[k] == name);
                    }
                    if name == entry.name@ {
                        assert(names.push(entry.name@)[names.len() as int] == name);
                    }
                    if names.push(entry.name@).contains(name) && name != entry.name@ {
                        let k = choose|k: int| 0 <= k < names.push(entry.name@).len() && names.push(entry.name@)[k] == name;
                        assert(names[k] == name);
                    }
                }
                assert forall|k: int| 0 <= k < i + 1 && form_of(entries@[k].name@) != Some(AttributeForm::Flag) implies r.value(
                    (#[trigger] entries@[k]).name@,
                ) == Some(entries@[k].value@) by {
                    if k < i {
                        assert(names[k] == entries@[k].name@);
                        assert(names.contains(entries@[k].name@));
                        assert(entries@[k].name@ != entry.name@);
                        assert(before.value(entries@[k].name@) == Some(entries@[k].value@));
                    }
                }
            }
            i = i + 1;
        }
        Ok(r)
    }

    /// Decides whether the argument with a name was given.
    fn is_given(&self, name: &str) -> (r: bool)
        ensures
            r == self.given(name@),
    {
        proof {
            names_differ();
        }
        if text::same(name, "lifecycle") {
            self.lifecycle
        } else if text::same(name, "consumer") {
            self.consumer
        } else if text::same(name, "descriptor") {
            self.descriptor.is_some()
        } else if text::same(name, "configuration_schema") {
            self.configuration_schema.is_some()
        } else if text::same(name, "configuration_defaults") {
            self.configuration_defaults.is_some()
        } else if text::same(name, "validate") {
            self.validate.is_some()
        } else if text::same(name, "prepare") {
            self.prepare.is_some()
        } else if text::same(name, "activate") {
            self.activate.is_some()
        } else if text::same(name, "deactivate") {
            self.deactivate.is_some()
        } else {
            false
        }
    }

    /// Decides whether a value is written behind the name of an argument. Only a flag has none.
    pub fn takes_value(name: &str) -> (r: bool)
        ensures
            r == (form_of(name@) != Some(AttributeForm::Flag)),
    {
        !text::same(name, "lifecycle") && !text::same(name, "consumer")
    }

    /// Decides what is to be read behind the name of an argument.
    pub fn expect(&self, name: &str) -> (r: Result<AttributeForm, AuthoringError>)
        ensures
            match form_of(name@) {
                None => r is Err && r->Err_0@
                    == "expected `descriptor`, `configuration_schema`, `configuration_defaults`, `validate`, `prepare`, `activate`, `deactivate`, `lifecycle`, or `consumer`"@,
                Some(form) => if self.given(name@) {
                    r is Err && r->Err_0@ == "duplicate Plugin attribute"@
                } else {
                    r == Ok::<AttributeForm, AuthoringError>(form)
                },
            },
    {
        let form: AttributeForm = if text::same(name, "lifecycle") || text::same(name, "consumer") {
            AttributeForm::Flag
        } else if text::same(name, "descriptor") || text::same(name, "configuration_schema") || text::same(name, "configuration_defaults") {
            AttributeForm::Text
        } else if text::same(name, "validate") || text::same(name, "prepare") || text::same(name, "activate") || text::same(name, "deactivate") {
            AttributeForm::Path
        } else {
            return Err(
                refused(
                    "expected `descriptor`, `configuration_schema`, `configuration_defaults`, `validate`, `prepare`, `activate`, `deactivate`, `lifecycle`, or `consumer`",
                ),
            );
        };
        if self.is_given(name) {
            return Err(refused("duplicate Plugin attribute"));
        }
        Ok(form)
    }

    /// Enters an argument without a value.
    pub fn set_flag(&mut self, name: &str)
        requires
            form_of(name@) == Some(AttributeForm::Flag),
        ensures
            forall|other: Seq<char>| #[trigger] final(self).given(other) == (old(self).given(other) || other == name@),
            forall|other: Seq<char>| #[trigger] final(self).value(other) == old(self).value(other),
    {
        proof {
            names_differ();
            assert(value_names()[0] == "descriptor"@ && value_names()[1] == "configuration_schema"@ && value_names()[2]
                == "configuration_defaults"@);
            assert(value_names()[3] == "validate"@ && value_names()[4] == "prepare"@ && value_names()[5] == "activate"@ && value_names()[6]
                == "deactivate"@);
        }
        if text::same(name, "lifecycle") {
            self.lifecycle = true;
        } else {
            self.consumer = true;
        }
    }

    /// Enters an argument with its value.
    pub fn set_value(&mut self, name: &str, value: String)
        requires
            form_of(name@) == Some(AttributeForm::Text) || form_of(name@) == Some(AttributeForm::Path),
        ensures
            forall|other: Seq<char>| #[trigger] final(self).given(other) == (old(self).given(other) || other == name@),
            final(self).value(name@) == Some(value@),
            forall|other: Seq<char>| other != name@ ==> #[trigger] final(self).value(other) == old(self).value(other),
    {
        proof {
            names_differ();
            assert(value_names()[0] == "descriptor"@ && value_names()[1] == "configuration_schema"@ && value_names()[2]
                == "configuration_defaults"@);
            assert(value_names()[3] == "validate"@ && value_names()[4] == "prepare"@ && value_names()[5] == "activate"@ && value_names()[6]
                == "deactivate"@);
        }
        if text::same(name, "descriptor") {
            self.descriptor = Some(value);
        } else if text::same(name, "configuration_schema") {
            self.configuration_schema = Some(value);
        } else if text::same(name, "configuration_defaults") {
            self.configuration_defaults = Some(value);
        } else if text::same(name, "validate") {
            self.validate = Some(value);
        } else if text::same(name, "prepare") {
            self.prepare = Some(value);
        } else if text::same(name, "activate") {
            self.activate = Some(value);
        } else {
            self.deactivate = Some(value);
        }
    }
}

} // verus!
