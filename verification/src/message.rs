//! The SMTP delivery adapter's message construction.
//!
//! For one campaign, one recipient and the owning tenant it renders the
//! body (placeholder substitution plus the tracking pixel), computes the
//! deterministic `Message-ID` that the reply correlator later searches
//! for, and assembles the outbound MIME message, including the optional
//! single attachment. Transmission itself is left to the caller.

use vstd::prelude::*;
use vstd::string::StringSliceAdditionalSpecFns;

use crate::bytes::contains_bytes;
use crate::bytes::contains_seq;
use crate::bytes::copy_bytes;
use crate::bytes::copy_opt_bytes;
use crate::bytes::dec_i32;
use crate::bytes::push_dec_i32;
use crate::bytes::replace_bytes;
use crate::bytes::replace_seq;
use crate::model::Email;
use crate::model::EmailRecipient;
use crate::model::Hub;
use crate::model::opt_bytes;

verus! {

/// The placeholder in a tenant template that the unsubscribe link fills.
pub open spec fn unsubscribe_placeholder() -> Seq<u8> {
    "{unsubscribe_url}".spec_bytes()
}

/// The placeholder in a tenant template that the campaign body fills.
pub open spec fn message_placeholder() -> Seq<u8> {
    "{message}".spec_bytes()
}

/// The mailto-unsubscribe link derived from the tenant login; empty when
/// the tenant has no login.
pub open spec fn spec_unsubscribe_url(login: Option<Vec<u8>>) -> Seq<u8> {
    match login {
        Some(l) => "mailto:".spec_bytes() + l@ + "?subject=unsubscribe".spec_bytes(),
        None => Seq::<u8>::empty(),
    }
}

/// The tenant template with every unsubscribe placeholder substituted.
pub open spec fn spec_rendered_template(template: Seq<u8>, unsub: Seq<u8>) -> Seq<u8> {
    replace_seq(template, unsubscribe_placeholder(), unsub)
}

/// The campaign body merged into the template: substituted at the message
/// placeholder when the template has one, otherwise the template is
/// appended after the body.
pub open spec fn spec_body_with_message(template: Seq<u8>, message: Seq<u8>) -> Seq<u8> {
    if contains_seq(template, message_placeholder()) {
        replace_seq(template, message_placeholder(), message)
    } else {
        message + template
    }
}

/// The zero-visible-size tracking image tag whose `src` encodes the
/// recipient id under the deployment domain.
pub open spec fn spec_tracking_pixel(domain: Seq<u8>, recipient_id: int) -> Seq<u8> {
    "<img height=\"1\" width=\"1\" border=\"0\" src=\"https://".spec_bytes() + domain
        + "/track/".spec_bytes() + dec_i32(recipient_id) + "\">".spec_bytes()
}

/// The complete rendered body: template substitution, then the campaign
/// message, then the tracking pixel.
pub open spec fn spec_rendered_body(
    template: Seq<u8>,
    message: Seq<u8>,
    unsub: Seq<u8>,
    domain: Seq<u8>,
    recipient_id: int,
) -> Seq<u8> {
    spec_body_with_message(spec_rendered_template(template, unsub), message)
        + spec_tracking_pixel(domain, recipient_id)
}

/// The deterministic `Message-ID` of a recipient: its id, `@`, the
/// deployment domain. It is the correlation key for inbound replies, so it
/// is unique per recipient row and stable across resends.
pub open spec fn spec_message_id(recipient_id: int, domain: Seq<u8>) -> Seq<u8> {
    dec_i32(recipient_id) + "@".spec_bytes() + domain
}

/// The campaign has a complete attachment: bytes, name and MIME type all
/// present and non-empty.
pub open spec fn spec_has_attachment(e: Email) -> bool {
    match (e.attachment, e.attachment_name, e.attachment_mime) {
        (Some(content), Some(name), Some(mime)) => content@.len() > 0 && name@.len() > 0
            && mime@.len() > 0,
        _ => false,
    }
}

/// One attachment part of an outbound message.
pub struct Attachment {
    pub mime: Vec<u8>,
    pub name: Vec<u8>,
    pub content: Vec<u8>,
}

/// One outbound MIME message, ready for an SMTP client to transmit.
pub struct OutboundMessage {
    pub from_name: Vec<u8>,
    pub from_address: Vec<u8>,
    pub to_address: Vec<u8>,
    pub subject: Vec<u8>,
    pub html_body: Vec<u8>,
    pub text_body: Vec<u8>,
    pub message_id: Vec<u8>,
    pub list_unsubscribe: Vec<u8>,
    pub attachment: Option<Attachment>,
}

impl Hub {
    /// The mailto-unsubscribe link derived from the tenant login.
    pub fn get_usubscribe_url(&self) -> (r: Vec<u8>)
        ensures
            r@ == spec_unsubscribe_url(self.login),
    {
        match &self.login {
            Some(login) => {
                let mut r: Vec<u8> = Vec::new();
                r.extend_from_slice("mailto:".as_bytes());
                r.extend_from_slice(login.as_slice());
                r.extend_from_slice("?subject=unsubscribe".as_bytes());
                proof {
                    assert(r@ =~= spec_unsubscribe_url(self.login));
                }
                r
            },
            None => {
                let r: Vec<u8> = Vec::new();
                proof {
                    assert(r@ =~= spec_unsubscribe_url(self.login));
                }
                r
            },
        }
    }
}

/// The deterministic `Message-ID` for a recipient id under a domain.
pub fn message_id(recipient_id: i32, domain: &[u8]) -> (r: Vec<u8>)
    ensures
        r@ == spec_message_id(recipient_id as int, domain@),
{
    let mut r: Vec<u8> = Vec::new();
    push_dec_i32(&mut r, recipient_id);
    r.extend_from_slice("@".as_bytes());
    r.extend_from_slice(domain);
    proof {
        assert(r@ =~= spec_message_id(recipient_id as int, domain@));
    }
    r
}

/// Renders the body sent to one recipient: the tenant template with the
/// unsubscribe link and the campaign message substituted, then the
/// tracking pixel for the recipient.
pub fn render_email_body(hub: &Hub, email: &Email, recipient_id: i32, domain: &[u8]) -> (r: Vec<
    u8,
>)
    ensures
        r@ == spec_rendered_body(
            opt_bytes(hub.email_template),
            email.message@,
            spec_unsubscribe_url(hub.login),
            domain@,
            recipient_id as int,
        ),
{
    let unsub = hub.get_usubscribe_url();
    let template = copy_opt_bytes(&hub.email_template);
    let rendered = replace_bytes(
        template.as_slice(),
        "{unsubscribe_url}".as_bytes(),
        unsub.as_slice(),
    );
    let mut body: Vec<u8>;
    if contains_bytes(rendered.as_slice(), "{message}".as_bytes()) {
        body = replace_bytes(rendered.as_slice(), "{message}".as_bytes(), email.message.as_slice());
    } else {
        body = copy_bytes(&email.message);
        body.extend_from_slice(rendered.as_slice());
    }
    body.extend_from_slice("<img height=\"1\" width=\"1\" border=\"0\" src=\"https://".as_bytes());
    body.extend_from_slice(domain);
    body.extend_from_slice("/track/".as_bytes());
    push_dec_i32(&mut body, recipient_id);
    body.extend_from_slice("\">".as_bytes());
    proof {
        assert(body@ =~= spec_rendered_body(
            opt_bytes(hub.email_template),
            email.message@,
            spec_unsubscribe_url(hub.login),
            domain@,
            recipient_id as int,
        ));
    }
    body
}

/// Builds the outbound MIME message for one recipient of a campaign:
/// sender identity and subject from the tenant and campaign, rendered body
/// as both HTML and plain text, the deterministic `Message-ID`, the
/// `List-Unsubscribe` header, and the single attachment exactly when the
/// campaign carries complete attachment data.
pub fn build_message(hub: &Hub, email: &Email, recipient: &EmailRecipient, domain: &[u8]) -> (m:
    OutboundMessage)
    ensures
        m.from_name@ == opt_bytes(hub.sender),
        m.from_address@ == opt_bytes(hub.login),
        m.to_address@ == recipient.address@,
        m.subject@ == opt_bytes(email.subject),
        m.html_body@ == spec_rendered_body(
            opt_bytes(hub.email_template),
            email.message@,
            spec_unsubscribe_url(hub.login),
            domain@,
            recipient.id as int,
        ),
        m.text_body@ == m.html_body@,
        m.message_id@ == spec_message_id(recipient.id as int, domain@),
        m.list_unsubscribe@ == spec_unsubscribe_url(hub.login),
        match m.attachment {
            Some(a) => spec_has_attachment(*email) && a.content@ == opt_bytes(email.attachment)
                && a.name@ == opt_bytes(email.attachment_name) && a.mime@ == opt_bytes(
                email.attachment_mime,
            ),
            None => !spec_has_attachment(*email),
        },
{
    let body = render_email_body(hub, email, recipient.id, domain);
    let text_body = copy_bytes(&body);
    let attachment: Option<Attachment> = match (
        &email.attachment,
        &email.attachment_name,
        &email.attachment_mime,
    ) {
        (Some(content), Some(name), Some(mime)) => {
            if content.len() > 0 && name.len() > 0 && mime.len() > 0 {
                Some(
                    Attachment {
                        mime: copy_bytes(mime),
                        name: copy_bytes(name),
                        content: copy_bytes(content),
                    },
                )
            } else {
                None
            }
        },
        _ => None,
    };
    OutboundMessage {
        from_name: copy_opt_bytes(&hub.sender),
        from_address: copy_opt_bytes(&hub.login),
        to_address: copy_bytes(&recipient.address),
        subject: copy_opt_bytes(&email.subject),
        html_body: body,
        text_body,
        message_id: message_id(recipient.id, domain),
        list_unsubscribe: hub.get_usubscribe_url(),
        attachment,
    }
}

} // verus!
