//! Notification rules: how triggers and channels are named, how a rule selector's values
//! are read, and how a rule's recipients are summarised.

use vstd::prelude::*;
use crate::lists::ListItem;
use crate::numbers::{decimal_spec, push_decimal};
use crate::roles::{UserRole, role_display_text, role_label};
use crate::text::{chars_of, optional_trimmed, optional_trimmed_spec, push_text, string_of, text_eq, text_of};

verus! {

/// What sets off a notification. A price change carries its threshold percentage as the
/// decimal text that is shown for it.
#[derive(Clone, Debug, PartialEq, Eq)]
pub enum NotificationTrigger {
    PriceChange { percentage: String },
    Sale,
    Auction,
    Rent,
    Unrent,
    NoSales { days: u32 },
    Custom(String),
}

/// How a notification is delivered.
#[derive(Clone, Copy, Debug, PartialEq, Eq, Structural, Hash)]
pub enum NotificationType {
    Push,
    Email,
    Sms,
    InApp,
}

impl ListItem for NotificationType {
    fn same(&self, other: &Self) -> (b: bool) {
        *self == *other
    }
}

/// The full label of a trigger.
pub open spec fn trigger_label_spec(t: NotificationTrigger) -> Seq<char> {
    match t {
        NotificationTrigger::PriceChange { percentage } => "Price change > "@ + percentage@ + "%"@,
        NotificationTrigger::Sale => "Sale"@,
        NotificationTrigger::Auction => "Auction"@,
        NotificationTrigger::Rent => "Rent"@,
        NotificationTrigger::Unrent => "Unrent"@,
        NotificationTrigger::NoSales { days } => "No sales for "@ + decimal_spec(days as nat)
            + " days"@,
        NotificationTrigger::Custom(s) => s@,
    }
}

/// The full label of a trigger, as a rule shows it.
pub fn trigger_label(t: &NotificationTrigger) -> (s: String)
    ensures
        s@ == trigger_label_spec(*t),
{
    match t {
        NotificationTrigger::PriceChange { percentage } => {
            let mut s = string_of(&chars_of("Price change > "));
            push_text(&mut s, percentage.as_str());
            push_text(&mut s, "%");
            s
        },
        NotificationTrigger::Sale => string_of(&chars_of("Sale")),
        NotificationTrigger::Auction => string_of(&chars_of("Auction")),
        NotificationTrigger::Rent => string_of(&chars_of("Rent")),
        NotificationTrigger::Unrent => string_of(&chars_of("Unrent")),
        NotificationTrigger::NoSales { days } => {
            let mut s = string_of(&chars_of("No sales for "));
            push_decimal(&mut s, *days as u64);
            push_text(&mut s, " days");
            s
        },
        NotificationTrigger::Custom(c) => string_of(&chars_of(c.as_str())),
    }
}

/// The short name of a trigger's kind.
pub open spec fn trigger_short_spec(t: NotificationTrigger) -> Seq<char> {
    match t {
        NotificationTrigger::PriceChange { .. } => "Price Change"@,
        NotificationTrigger::Sale => "Sale"@,
        NotificationTrigger::Auction => "Auction"@,
        NotificationTrigger::Rent => "Rent"@,
        NotificationTrigger::Unrent => "Unrent"@,
        NotificationTrigger::NoSales { .. } => "No Sales"@,
        NotificationTrigger::Custom(_) => "Custom"@,
    }
}

/// The short name of a trigger's kind, as the rule selector lists it.
pub fn trigger_short(t: &NotificationTrigger) -> (s: &'static str)
    ensures
        s@ == trigger_short_spec(*t),
{
    match t {
        NotificationTrigger::PriceChange { .. } => "Price Change",
        NotificationTrigger::Sale => "Sale",
        NotificationTrigger::Auction => "Auction",
        NotificationTrigger::Rent => "Rent",
        NotificationTrigger::Unrent => "Unrent",
        NotificationTrigger::NoSales { .. } => "No Sales",
        NotificationTrigger::Custom(_) => "Custom",
    }
}

/// The name of a delivery channel.
pub open spec fn notif_type_label_spec(t: NotificationType) -> Seq<char> {
    match t {
        NotificationType::Push => "Push"@,
        NotificationType::Email => "Email"@,
        NotificationType::Sms => "SMS"@,
        NotificationType::InApp => "In-App"@,
    }
}

/// The name of a delivery channel, as a rule's channel chips show it.
pub fn notif_type_label(t: &NotificationType) -> (s: &'static str)
    ensures
        s@ == notif_type_label_spec(*t),
{
    match t {
        NotificationType::Push => "Push",
        NotificationType::Email => "Email",
        NotificationType::Sms => "SMS",
        NotificationType::InApp => "In-App",
    }
}

/// The value that the rule selector's option carries for a trigger.
pub open spec fn trigger_value_spec(t: NotificationTrigger) -> Seq<char> {
    match t {
        NotificationTrigger::Sale => "Sale"@,
        NotificationTrigger::Auction => "Auction"@,
        NotificationTrigger::Rent => "Rent"@,
        NotificationTrigger::Unrent => "Unrent"@,
        NotificationTrigger::PriceChange { .. } => "PriceChange"@,
        NotificationTrigger::NoSales { .. } => "NoSales"@,
        NotificationTrigger::Custom(s) => if s@ == "Document Added"@ {
            "DocumentAdded"@
        } else if s@ == "Document Updated"@ {
            "DocumentUpdated"@
        } else {
            "Custom"@
        },
    }
}

/// The value that the rule selector's option carries for a trigger.
pub fn trigger_value(t: &NotificationTrigger) -> (s: &'static str)
    ensures
        s@ == trigger_value_spec(*t),
{
    match t {
        NotificationTrigger::Sale => "Sale",
        NotificationTrigger::Auction => "Auction",
        NotificationTrigger::Rent => "Rent",
        NotificationTrigger::Unrent => "Unrent",
        NotificationTrigger::PriceChange { .. } => "PriceChange",
        NotificationTrigger::NoSales { .. } => "NoSales",
        NotificationTrigger::Custom(c) => {
            if text_eq(c.as_str(), "Document Added") {
                "DocumentAdded"
            } else if text_eq(c.as_str(), "Document Updated") {
                "DocumentUpdated"
            } else {
                "Custom"
            }
        },
    }
}

/// The trigger that a selector value stands for; an unknown value is a sale. A price
/// change is set at 10 percent and a sales drought at 30 days.
pub open spec fn trigger_named(v: Seq<char>) -> NotificationTrigger {
    if v == "Sale"@ {
        NotificationTrigger::Sale
    } else if v == "Auction"@ {
        NotificationTrigger::Auction
    } else if v == "Rent"@ {
        NotificationTrigger::Rent
    } else if v == "Unrent"@ {
        NotificationTrigger::Unrent
    } else if v == "PriceChange"@ {
        NotificationTrigger::PriceChange { percentage: arbitrary() }
    } else if v == "NoSales"@ {
        NotificationTrigger::NoSales { days: 30 }
    } else if v == "DocumentAdded"@ {
        NotificationTrigger::Custom(arbitrary())
    } else if v == "DocumentUpdated"@ {
        NotificationTrigger::Custom(arbitrary())
    } else {
        NotificationTrigger::Sale
    }
}

/// Whether `t` is the trigger that selector value `v` stands for.
pub open spec fn is_trigger_named(v: Seq<char>, t: NotificationTrigger) -> bool {
    if v == "PriceChange"@ {
        t matches NotificationTrigger::PriceChange { percentage } && percentage@ == "10"@
    } else if v == "DocumentAdded"@ {
        t matches NotificationTrigger::Custom(s) && s@ == "Document Added"@
    } else if v == "DocumentUpdated"@ {
        t matches NotificationTrigger::Custom(s) && s@ == "Document Updated"@
    } else {
        t == trigger_named(v)
    }
}

/// Reads the rule selector's value.
pub fn trigger_from_value(v: &str) -> (t: NotificationTrigger)
    ensures
        is_trigger_named(v@, t),
{
    proof {
        reveal_strlit("Sale");
        reveal_strlit("Auction");
        reveal_strlit("Rent");
        reveal_strlit("Unrent");
        reveal_strlit("PriceChange");
        reveal_strlit("NoSales");
        reveal_strlit("DocumentAdded");
        reveal_strlit("DocumentUpdated");
        assert("Sale"@.len() == 4 && "Rent"@.len() == 4 && "Sale"@[0] != "Rent"@[0]);
        assert("Auction"@.len() == 7 && "NoSales"@.len() == 7 && "Auction"@[0] != "NoSales"@[0]);
        assert("Unrent"@.len() == 6 && "PriceChange"@.len() == 11);
        assert("DocumentAdded"@.len() == 13 && "DocumentUpdated"@.len() == 15);
    }
    if text_eq(v, "Sale") {
        NotificationTrigger::Sale
    } else if text_eq(v, "Auction") {
        NotificationTrigger::Auction
    } else if text_eq(v, "Rent") {
        NotificationTrigger::Rent
    } else if text_eq(v, "Unrent") {
        NotificationTrigger::Unrent
    } else if text_eq(v, "PriceChange") {
        NotificationTrigger::PriceChange { percentage: string_of(&chars_of("10")) }
    } else if text_eq(v, "NoSales") {
        NotificationTrigger::NoSales { days: 30 }
    } else if text_eq(v, "DocumentAdded") {
        NotificationTrigger::Custom(string_of(&chars_of("Document Added")))
    } else if text_eq(v, "DocumentUpdated") {
        NotificationTrigger::Custom(string_of(&chars_of("Document Updated")))
    } else {
        NotificationTrigger::Sale
    }
}

/// The triggers that the rule selector offers, in order.
pub fn selectable_triggers() -> (v: Vec<NotificationTrigger>)
    ensures
        v.len() == 8,
        v@[0] == NotificationTrigger::Sale,
        v@[1] == NotificationTrigger::Auction,
        v@[2] == NotificationTrigger::Rent,
        v@[3] == NotificationTrigger::Unrent,
        v@[4] matches NotificationTrigger::PriceChange { percentage } && percentage@ == "10"@,
        v@[5] == (NotificationTrigger::NoSales { days: 30 }),
        v@[6] matches NotificationTrigger::Custom(s) && s@ == "Document Added"@,
        v@[7] matches NotificationTrigger::Custom(s) && s@ == "Document Updated"@,
{
    let mut v = Vec::new();
    v.push(NotificationTrigger::Sale);
    v.push(NotificationTrigger::Auction);
    v.push(NotificationTrigger::Rent);
    v.push(NotificationTrigger::Unrent);
    v.push(NotificationTrigger::PriceChange { percentage: string_of(&chars_of("10")) });
    v.push(NotificationTrigger::NoSales { days: 30 });
    v.push(NotificationTrigger::Custom(string_of(&chars_of("Document Added"))));
    v.push(NotificationTrigger::Custom(string_of(&chars_of("Document Updated"))));
    v
}

/// Each trigger that the selector offers is read back from its option's value.
pub proof fn lemma_trigger_value_round_trip(t: NotificationTrigger)
    requires
        t == NotificationTrigger::Sale || t == NotificationTrigger::Auction || t
            == NotificationTrigger::Rent || t == NotificationTrigger::Unrent || (
        t matches NotificationTrigger::PriceChange { percentage } && percentage@ == "10"@) || t
            == (NotificationTrigger::NoSales { days: 30 }) || (t matches NotificationTrigger::Custom(
            s,
        ) && (s@ == "Document Added"@ || s@ == "Document Updated"@)),
    ensures
        is_trigger_named(trigger_value_spec(t), t),
{
    reveal_strlit("Sale");
    reveal_strlit("Auction");
    reveal_strlit("Rent");
    reveal_strlit("Unrent");
    reveal_strlit("PriceChange");
    reveal_strlit("NoSales");
    reveal_strlit("DocumentAdded");
    reveal_strlit("DocumentUpdated");
    reveal_strlit("Document Added");
    reveal_strlit("Document Updated");
    assert("Sale"@.len() == 4 && "Rent"@.len() == 4 && "Sale"@[0] != "Rent"@[0]);
    assert("Auction"@.len() == 7 && "NoSales"@.len() == 7 && "Auction"@[0] != "NoSales"@[0]);
    assert("Unrent"@.len() == 6 && "PriceChange"@.len() == 11);
    assert("DocumentAdded"@.len() == 13 && "DocumentUpdated"@.len() == 15);
    assert("Document Added"@.len() == 14 && "Document Updated"@.len() == 16);
}

/// The delivery channels a rule's chips offer, in order.
pub fn delivery_channels() -> (v: Vec<NotificationType>)
    ensures
        v@ == seq![NotificationType::InApp, NotificationType::Push, NotificationType::Email, NotificationType::Sms],
{
    vec![NotificationType::InApp, NotificationType::Push, NotificationType::Email, NotificationType::Sms]
}

/// The roles a rule can be sent to, in order.
pub fn recipient_role_choices() -> (v: Vec<UserRole>)
    ensures
        v@ == seq![
            UserRole::Owner,
            UserRole::Director,
            UserRole::SeniorManager,
            UserRole::Manager,
            UserRole::Worker,
            UserRole::DocumentWorker,
        ],
{
    vec![
        UserRole::Owner,
        UserRole::Director,
        UserRole::SeniorManager,
        UserRole::Manager,
        UserRole::Worker,
        UserRole::DocumentWorker,
    ]
}

/// A member as a recipient list shows them.
pub struct Person {
    pub id: u128,
    pub name: String,
}

/// The names of the rule's recipients that are members, in the order of the recipients;
/// each takes the name of the first member with that id.
pub open spec fn recipient_names_spec(recipients: Seq<u128>, people: Seq<Person>) -> Seq<Seq<char>>
    decreases recipients.len(),
{
    if recipients.len() == 0 {
        Seq::empty()
    } else {
        let rest = recipient_names_spec(recipients.drop_last(), people);
        match first_person(people, recipients.last()) {
            Some(k) => rest.push(people[k].name@),
            None => rest,
        }
    }
}

/// The position of the first person with id `id`.
pub open spec fn first_person(people: Seq<Person>, id: u128) -> Option<int> {
    if exists|k: int| 0 <= k < people.len() && people[k].id == id {
        Some(
            choose|k: int|
                0 <= k < people.len() && people[k].id == id && forall|j: int|
                    0 <= j < k ==> #[trigger] people[j].id != id,
        )
    } else {
        None
    }
}

/// `parts` joined with `sep` between them.
pub open spec fn joined(parts: Seq<Seq<char>>, sep: Seq<char>) -> Seq<char>
    decreases parts.len(),
{
    if parts.len() == 0 {
        Seq::empty()
    } else if parts.len() == 1 {
        parts[0]
    } else {
        joined(parts.drop_last(), sep) + sep + parts.last()
    }
}

/// What a rule's recipient line says: `Just me` when it names no one, otherwise the users
/// and the roles it names.
pub open spec fn recipients_summary_spec(names: Seq<Seq<char>>, roles: Seq<UserRole>) -> Seq<char> {
    let role_names = roles.map_values(|r: UserRole| role_display_text(r));
    if names.len() == 0 && roles.len() == 0 {
        "Just me"@
    } else if roles.len() == 0 {
        "Users: "@ + joined(names, ", "@)
    } else if names.len() == 0 {
        "Roles: "@ + joined(role_names, ", "@)
    } else {
        "Users: "@ + joined(names, ", "@) + " · "@ + "Roles: "@ + joined(role_names, ", "@)
    }
}

fn push_joined(out: &mut String, parts: &Vec<String>, sep: &str)
    ensures
        final(out)@ == old(out)@ + joined(parts@.map_values(|p: String| p@), sep@),
{
    let ghost views = parts@.map_values(|p: String| p@);
    let ghost start = out@;
    let mut i: usize = 0;
    while i < parts.len()
        invariant
            0 <= i <= parts.len(),
            views == parts@.map_values(|p: String| p@),
            out@ == start + joined(views.take(i as int), sep@),
        decreases parts.len() - i,
    {
        proof {
            assert(views.take(i + 1).drop_last() =~= views.take(i as int));
            assert(views.take(i + 1).last() == parts@[i as int]@);
        }
        if i > 0 {
            push_text(out, sep);
        }
        push_text(out, parts[i].as_str());
        proof {
            if i == 0 {
                assert(views.take(1) =~= seq![parts@[0]@]);
                assert(joined(views.take(0), sep@) =~= Seq::<char>::empty());
            }
            assert(out@ =~= start + joined(views.take(i + 1), sep@));
        }
        i = i + 1;
    }
    assert(views.take(parts.len() as int) =~= views);
}

/// The names of the rule's recipients that are members.
pub fn recipient_names(recipients: &Vec<u128>, people: &Vec<Person>) -> (names: Vec<String>)
    ensures
        names@.map_values(|p: String| p@) == recipient_names_spec(recipients@, people@),
{
    let mut names: Vec<String> = Vec::new();
    let mut i: usize = 0;
    assert(recipients@.take(0) =~= Seq::<u128>::empty());
    while i < recipients.len()
        invariant
            0 <= i <= recipients.len(),
            names@.map_values(|p: String| p@) == recipient_names_spec(recipients@.take(i as int), people@),
        decreases recipients.len() - i,
    {
        let id = recipients[i];
        assert(recipients@.take(i + 1).drop_last() =~= recipients@.take(i as int));
        let mut k: usize = 0;
        while k < people.len() && people[k].id != id
            invariant
                0 <= k <= people.len(),
                forall|j: int| 0 <= j < k ==> #[trigger] people@[j].id != id,
            decreases people.len() - k,
        {
            k = k + 1;
        }
        let ghost before = names@;
        if k < people.len() {
            proof {
                let c = choose|c: int|
                    0 <= c < people@.len() && people@[c].id == id && forall|j: int|
                        0 <= j < c ==> #[trigger] people@[j].id != id;
                if c < k {
                } else if c > k {
                    assert(people@[k as int].id == id);
                }
            }
            names.push(string_of(&chars_of(people[k].name.as_str())));
            assert(names@.map_values(|p: String| p@) =~= before.map_values(|p: String| p@).push(people@[k as int].name@));
        }
        i = i + 1;
    }
    assert(recipients@.take(recipients.len() as int) =~= recipients@);
    names
}

/// The recipient line of a rule, given the names of its recipients and its roles.
pub fn recipients_summary(names: &Vec<String>, roles: &Vec<UserRole>) -> (s: String)
    ensures
        s@ == recipients_summary_spec(names@.map_values(|p: String| p@), roles@),
{
    let mut role_names: Vec<String> = Vec::new();
    let mut i: usize = 0;
    while i < roles.len()
        invariant
            0 <= i <= roles.len(),
            role_names@.map_values(|p: String| p@) =~= roles@.take(i as int).map_values(
                |r: UserRole| role_display_text(r),
            ),
        decreases roles.len() - i,
    {
        let label = role_label(&roles[i]);
        let ghost before = role_names@;
        role_names.push(string_of(&chars_of(label)));
        proof {
            assert(roles@.take(i + 1) =~= roles@.take(i as int).push(roles@[i as int]));
            assert(role_names@.map_values(|p: String| p@) =~= before.map_values(|p: String| p@).push(
                label@,
            ));
        }
        i = i + 1;
    }
    assert(roles@.take(roles.len() as int) =~= roles@);
    if names.len() == 0 && roles.len() == 0 {
        return string_of(&chars_of("Just me"));
    }
    let mut s = String::new();
    if names.len() > 0 {
        push_text(&mut s, "Users: ");
        push_joined(&mut s, names, ", ");
    }
    if roles.len() > 0 {
        if names.len() > 0 {
            push_text(&mut s, " · ");
        }
        push_text(&mut s, "Roles: ");
        push_joined(&mut s, &role_names, ", ");
    }
    proof {
        assert(Seq::<char>::empty() + "Users: "@ =~= "Users: "@);
        assert(Seq::<char>::empty() + "Roles: "@ =~= "Roles: "@);
    }
    s
}


/// A notification rule as the quick-settings panel adds it: the chosen trigger, and the
/// condition typed beside it.
#[derive(Clone, Debug)]
pub struct NewSetting {
    pub trigger: NotificationTrigger,
    pub condition: Option<String>,
}

/// The rule that the panel's add button makes: the chosen trigger, with no condition when
/// the condition field is blank and the trimmed condition otherwise.
pub fn new_setting(trigger: NotificationTrigger, condition: &str) -> (r: NewSetting)
    ensures
        r.trigger == trigger,
        text_of(r.condition) == optional_trimmed_spec(condition@),
{
    let c = optional_trimmed(condition);
    NewSetting { trigger, condition: c }
}

} // verus!
