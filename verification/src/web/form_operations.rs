//! The notice sent after a form operation succeeds: which request it was,
//! how it ended, where, and who made it.

use vstd::prelude::*;

use crate::numbers::{decimal_digits, push_decimal_digits};
use crate::text::{chars_of, string_of};
use crate::web::discord_events::{field_view, DiscordWebhookField, FieldView};

verus! {

/// Who made a request.
#[derive(Debug, Clone, PartialEq, Eq)]
pub enum Requester {
    Authenticated { user_id: String, display_name: String },
    Anonymous,
}

/// A form operation that succeeded.
#[derive(Debug, Clone, PartialEq, Eq)]
pub struct FormOperationNotification {
    /// The request method, as HTTP writes it.
    pub method: String,
    /// The request path, without its query.
    pub path: String,
    pub status: u16,
    pub environment: String,
    pub requester: Requester,
}

/// A notice is sent only for a response with a 2xx status.
pub open spec fn is_success(status: u16) -> bool {
    200 <= status <= 299
}

pub fn notification_after_response(
    method: String,
    path: String,
    status: u16,
    environment: String,
    requester: Requester,
) -> (r: Option<FormOperationNotification>)
    ensures
        is_success(status) ==> r == Some(
            FormOperationNotification { method, path, status, environment, requester },
        ),
        !is_success(status) ==> r is None,
{
    if 200 <= status && status <= 299 {
        Some(FormOperationNotification { method, path, status, environment, requester })
    } else {
        None
    }
}

/// The fields of the notice: method, path, status and environment, then the
/// requester's ID and name, or that the requester is anonymous.
pub open spec fn notification_fields(n: FormOperationNotification) -> Seq<FieldView> {
    seq![
        ("Method"@, n.method@, true),
        ("Path"@, n.path@, false),
        ("Status"@, decimal_digits(n.status as nat), true),
        ("Environment"@, n.environment@, true),
    ] + match n.requester {
        Requester::Authenticated { user_id, display_name } => seq![
            ("User ID"@, user_id@, true),
            ("Display Name"@, display_name@, true),
        ],
        Requester::Anonymous => seq![("User"@, "Anonymous"@, true)],
    }
}

fn field(name: &str, value: String, inline: bool) -> (f: DiscordWebhookField)
    ensures
        field_view(f) == (name@, value@, inline),
{
    DiscordWebhookField { name: string_of(&chars_of(name)), value, inline }
}

impl FormOperationNotification {
    pub fn into_fields(self) -> (r: Vec<DiscordWebhookField>)
        ensures
            r@.map_values(|f: DiscordWebhookField| field_view(f)) == notification_fields(self),
    {
        let ghost whole = self;
        let mut status_text: Vec<char> = Vec::new();
        push_decimal_digits(self.status as u64, &mut status_text);
        let mut fields: Vec<DiscordWebhookField> = Vec::new();
        fields.push(field("Method", self.method, true));
        fields.push(field("Path", self.path, false));
        fields.push(field("Status", string_of(&status_text), true));
        fields.push(field("Environment", self.environment, true));
        match self.requester {
            Requester::Authenticated { user_id, display_name } => {
                fields.push(field("User ID", user_id, true));
                fields.push(field("Display Name", display_name, true));
            },
            Requester::Anonymous => {
                fields.push(field("User", string_of(&chars_of("Anonymous")), true));
            },
        }
        assert(fields@.map_values(|f: DiscordWebhookField| field_view(f)) =~= notification_fields(
            whole,
        ));
        fields
    }
}

} // verus!
