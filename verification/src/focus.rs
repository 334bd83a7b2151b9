//! The search for the field that a code goes into: a focused text field that can be written
//! to and is empty.

use crate::text;
use vstd::prelude::*;
use vstd::string::*;

verus! {

broadcast use vstd::string::group_string_axioms;

/// What the accessibility functions return on success.
pub const AX_ERROR_SUCCESS: i32 = 0;

/// What the search asks for next.
#[derive(Clone, Copy, Debug, PartialEq, Eq, Structural)]
pub enum FocusProbe {
    /// The element that stands for the whole system.
    SystemWide,
    /// The element that has the focus.
    Focused,
    /// The type of that element.
    ElementType,
    /// Its role.
    Role,
    /// Whether its value can be set.
    Settable,
    /// Its value.
    Value,
    /// Nothing: the element is a field to fill in.
    Accepted,
    /// Nothing: there is no field to fill in.
    Rejected,
}

/// The answer to what the search asked for.
#[derive(Debug)]
pub enum ProbeReply {
    /// Whether there is such an element.
    Exists(bool),
    /// Whether the type is that of an element of a user interface.
    IsElement(bool),
    /// The role, if it could be read.
    Role(Option<String>),
    /// What the call returned, and the flag that it set.
    Settable { status: i32, settable: u8 },
    /// The value, if it could be read as text.
    Value(Option<String>),
}

/// Whether an element with this role is a field for text.
pub open spec fn takes_text(role: Seq<char>) -> bool {
    role == "AXTextField"@ || role == "AXTextArea"@ || role == "AXComboBox"@
}

/// Whether a reply lets the search go on from `probe`, where it answers what was asked for.
pub open spec fn passes(probe: FocusProbe, reply: ProbeReply) -> Option<bool> {
    match (probe, reply) {
        (FocusProbe::SystemWide | FocusProbe::Focused, ProbeReply::Exists(found)) => Some(found),
        (FocusProbe::ElementType, ProbeReply::IsElement(is_element)) => Some(is_element),
        (FocusProbe::Role, ProbeReply::Role(role)) => Some(
            text::opt_view(role) matches Some(r) && takes_text(r),
        ),
        (FocusProbe::Settable, ProbeReply::Settable { status, settable }) => Some(
            status == AX_ERROR_SUCCESS && settable != 0,
        ),
        (FocusProbe::Value, ProbeReply::Value(value)) => Some(
            text::opt_view(value) matches Some(v) && v.len() == 0,
        ),
        _ => None,
    }
}

/// What the search asks for once `probe` went well.
pub open spec fn following(probe: FocusProbe) -> FocusProbe {
    match probe {
        FocusProbe::SystemWide => FocusProbe::Focused,
        FocusProbe::Focused => FocusProbe::ElementType,
        FocusProbe::ElementType => FocusProbe::Role,
        FocusProbe::Role => FocusProbe::Settable,
        FocusProbe::Settable => FocusProbe::Value,
        FocusProbe::Value => FocusProbe::Accepted,
        FocusProbe::Accepted => FocusProbe::Accepted,
        FocusProbe::Rejected => FocusProbe::Rejected,
    }
}

/// Where the search stands after a reply. One that does not answer what was asked for changes
/// nothing.
pub open spec fn after_reply(probe: FocusProbe, reply: ProbeReply) -> FocusProbe {
    match passes(probe, reply) {
        Some(true) => following(probe),
        Some(false) => FocusProbe::Rejected,
        None => probe,
    }
}

/// Whether an element with this role is a field for text.
pub fn is_text_role(role: &str) -> (yes: bool)
    ensures
        yes == takes_text(role@),
{
    text::same_text(role, "AXTextField") || text::same_text(role, "AXTextArea")
        || text::same_text(role, "AXComboBox")
}

impl FocusProbe {
    /// Where the search stands after a reply.
    pub fn next(self, reply: &ProbeReply) -> (probe: FocusProbe)
        ensures
            probe == after_reply(self, *reply),
    {
        match (self, reply) {
            (FocusProbe::SystemWide, ProbeReply::Exists(found)) => {
                if *found {
                    FocusProbe::Focused
                } else {
                    FocusProbe::Rejected
                }
            },
            (FocusProbe::Focused, ProbeReply::Exists(found)) => {
                if *found {
                    FocusProbe::ElementType
                } else {
                    FocusProbe::Rejected
                }
            },
            (FocusProbe::ElementType, ProbeReply::IsElement(is_element)) => {
                if *is_element {
                    FocusProbe::Role
                } else {
                    FocusProbe::Rejected
                }
            },
            (FocusProbe::Role, ProbeReply::Role(role)) => {
                match role {
                    Some(role) => {
                        if is_text_role(role.as_str()) {
                            FocusProbe::Settable
                        } else {
                            FocusProbe::Rejected
                        }
                    },
                    None => FocusProbe::Rejected,
                }
            },
            (FocusProbe::Settable, ProbeReply::Settable { status, settable }) => {
                if *status == AX_ERROR_SUCCESS && *settable != 0 {
                    FocusProbe::Value
                } else {
                    FocusProbe::Rejected
                }
            },
            (FocusProbe::Value, ProbeReply::Value(value)) => {
                match value {
                    Some(value) => {
                        if value.as_str().is_empty() {
                            FocusProbe::Accepted
                        } else {
                            FocusProbe::Rejected
                        }
                    },
                    None => FocusProbe::Rejected,
                }
            },
            _ => self,
        }
    }
}

/// The search after a series of replies.
pub open spec fn after_replies(probe: FocusProbe, replies: Seq<ProbeReply>) -> FocusProbe
    decreases replies.len(),
{
    if replies.len() == 0 {
        probe
    } else {
        after_replies(after_reply(probe, replies[0]), replies.drop_first())
    }
}

proof fn lemma_rejected_stays(replies: Seq<ProbeReply>)
    ensures
        after_replies(FocusProbe::Rejected, replies) == FocusProbe::Rejected,
    decreases replies.len(),
{
    if replies.len() > 0 {
        lemma_rejected_stays(replies.drop_first());
    }
}

/// A field is taken exactly if there is a focused element of a user interface with a role that
/// takes text, whose value can be set and is known to be empty.
pub proof fn fields_are_writable_and_empty(
    system: bool,
    focused: bool,
    is_element: bool,
    role: Option<String>,
    status: i32,
    settable: u8,
    value: Option<String>,
)
    ensures
        ({
            let replies = seq![
                ProbeReply::Exists(system),
                ProbeReply::Exists(focused),
                ProbeReply::IsElement(is_element),
                ProbeReply::Role(role),
                ProbeReply::Settable { status, settable },
                ProbeReply::Value(value),
            ];
            let good = system && focused && is_element && (text::opt_view(role) matches Some(
                r,
            ) && takes_text(r)) && status == AX_ERROR_SUCCESS && settable != 0
                && text::opt_view(value) == Some(Seq::<char>::empty());
            after_replies(FocusProbe::SystemWide, replies) == if good {
                FocusProbe::Accepted
            } else {
                FocusProbe::Rejected
            }
        }),
{
    let replies = seq![
        ProbeReply::Exists(system),
        ProbeReply::Exists(focused),
        ProbeReply::IsElement(is_element),
        ProbeReply::Role(role),
        ProbeReply::Settable { status, settable },
        ProbeReply::Value(value),
    ];
    let r1 = replies.drop_first();
    let r2 = r1.drop_first();
    let r3 = r2.drop_first();
    let r4 = r3.drop_first();
    let r5 = r4.drop_first();
    let r6 = r5.drop_first();
    lemma_rejected_stays(r1);
    lemma_rejected_stays(r2);
    lemma_rejected_stays(r3);
    lemma_rejected_stays(r4);
    lemma_rejected_stays(r5);
    lemma_rejected_stays(r6);
    if let Some(v) = value {
        if v@.len() == 0 {
            assert(v@ =~= Seq::<char>::empty());
        }
    }
    reveal_with_fuel(after_replies, 7);
}

/// A field for text is one of three: a line, an area, or a box to choose from.
pub proof fn three_roles_take_text(role: Seq<char>)
    ensures
        takes_text(role) <==> (role == "AXTextField"@ || role == "AXTextArea"@ || role
            == "AXComboBox"@),
        AX_ERROR_SUCCESS == 0,
{
}

/// The search asks for one thing after the other, goes on only where each is as it should be, and
/// gives up at the first that is not: there is an element that stands for the system, one has the
/// focus, it is an element of a user interface, its role is one of three, its value can be set,
/// and that value is known and empty.
pub proof fn each_question_decides(
    yes: bool,
    role: Option<String>,
    status: i32,
    settable: u8,
    value: Option<String>,
)
    ensures
        after_reply(FocusProbe::SystemWide, ProbeReply::Exists(yes)) == if yes {
            FocusProbe::Focused
        } else {
            FocusProbe::Rejected
        },
        after_reply(FocusProbe::Focused, ProbeReply::Exists(yes)) == if yes {
            FocusProbe::ElementType
        } else {
            FocusProbe::Rejected
        },
        after_reply(FocusProbe::ElementType, ProbeReply::IsElement(yes)) == if yes {
            FocusProbe::Role
        } else {
            FocusProbe::Rejected
        },
        role is None ==> after_reply(FocusProbe::Role, ProbeReply::Role(role))
            == FocusProbe::Rejected,
        role matches Some(name) ==> after_reply(FocusProbe::Role, ProbeReply::Role(role)) == if name@
            == "AXTextField"@ || name@ == "AXTextArea"@ || name@ == "AXComboBox"@ {
            FocusProbe::Settable
        } else {
            FocusProbe::Rejected
        },
        after_reply(FocusProbe::Settable, ProbeReply::Settable { status, settable }) == if status
            == 0 && settable > 0 {
            FocusProbe::Value
        } else {
            FocusProbe::Rejected
        },
        value is None ==> after_reply(FocusProbe::Value, ProbeReply::Value(value))
            == FocusProbe::Rejected,
        value matches Some(shown) ==> after_reply(FocusProbe::Value, ProbeReply::Value(value))
            == if shown@.len() == 0 {
            FocusProbe::Accepted
        } else {
            FocusProbe::Rejected
        },
{
}

/// A search that is over stays so, and a reply to anything but what was asked for changes nothing.
pub proof fn other_replies_change_nothing(probe: FocusProbe, reply: ProbeReply)
    requires
        match probe {
            FocusProbe::SystemWide | FocusProbe::Focused => !(reply is Exists),
            FocusProbe::ElementType => !(reply is IsElement),
            FocusProbe::Role => !(reply is Role),
            FocusProbe::Settable => !(reply is Settable),
            FocusProbe::Value => !(reply is Value),
            FocusProbe::Accepted | FocusProbe::Rejected => true,
        },
    ensures
        after_reply(probe, reply) == probe,
{
}

} // verus!
