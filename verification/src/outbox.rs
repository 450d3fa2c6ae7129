//! The latest content published from this device, kept for peers that
//! connect later (one kind at a time), how changed settings prune it, and
//! what each peer is sent of it given the capabilities it announced and the
//! groups through which it receives each content type.

use vstd::prelude::*;
use vstd::string::*;
use vstd::utf8::encode_utf8;
use crate::capture::{opt_text, rich_size};
use crate::content::{text_content_type, text_type};
use crate::delivery::DeliveryTarget;
use crate::text::str_equal;

verus! {

/// The largest text or rich text offered to peers.
pub const MAX_OFFERED_TEXT_BYTES: usize = 1024 * 1024;

/// The content a peer announced it can take.
#[derive(Clone, Copy, Debug, PartialEq, Eq, Structural)]
pub struct PeerCapabilities {
    pub text: bool,
    pub rich_text: bool,
    pub images: bool,
    pub files: bool,
}

/// Text offered to peers.
pub struct TextOffer {
    pub sequence: u64,
    pub captured_at: String,
    pub text: String,
    pub content_type: String,
}

/// Rich text offered to peers, with the type of its text fallback.
pub struct RichOffer {
    pub sequence: u64,
    pub captured_at: String,
    pub text: String,
    pub html: Option<String>,
    pub rtf: Option<String>,
    pub fallback_type: String,
}

/// The latest offer of each kind; publishing one kind drops the others.
pub struct LatestOffers<I, F> {
    pub text: Option<TextOffer>,
    pub rich: Option<RichOffer>,
    pub image: Option<I>,
    pub files: Option<F>,
}

/// Text of type `t` (`url` or text) is allowed.
pub open spec fn type_allowed(allow_text: bool, allow_urls: bool, t: Seq<char>) -> bool {
    if t == "url"@ { allow_urls } else { allow_text }
}

impl<I, F> LatestOffers<I, F> {
    /// At most one kind of content is offered: every operation below keeps
    /// this.
    pub open spec fn one_kind(&self) -> bool {
        (if self.text is Some { 1int } else { 0 }) + (if self.rich is Some { 1int } else { 0 })
            + (if self.image is Some { 1int } else { 0 }) + (if self.files is Some { 1int } else { 0 }) <= 1
    }

    /// Nothing offered.
    pub fn new() -> (o: Self)
        ensures
            o.text is None && o.rich is None && o.image is None && o.files is None,
            o.one_kind(),
    {
        LatestOffers { text: None, rich: None, image: None, files: None }
    }

    /// Offers text, unless it is over 1 MiB; returns whether it was offered.
    pub fn offer_text(&mut self, sequence: u64, text: String, captured_at: String) -> (offered: bool)
        ensures
            old(self).one_kind() ==> final(self).one_kind(),
            offered == (encode_utf8(text@).len() <= MAX_OFFERED_TEXT_BYTES),
            offered ==> (final(self).text matches Some(o) && o.sequence == sequence && o.text == text
                && o.captured_at == captured_at && o.content_type@ == text_type(text@))
                && final(self).rich is None && final(self).image is None && final(self).files is None,
            !offered ==> *final(self) == *old(self),
    {
        if text.as_str().as_bytes().len() > MAX_OFFERED_TEXT_BYTES {
            return false;
        }
        let content_type = String::from_str(text_content_type(text.as_str()));
        self.text = Some(TextOffer { sequence, captured_at, text, content_type });
        self.rich = None;
        self.image = None;
        self.files = None;
        true
    }

    /// Offers rich text, unless it has neither HTML nor RTF or is over
    /// 1 MiB in all; returns whether it was offered.
    pub fn offer_rich(
        &mut self,
        sequence: u64,
        text: String,
        html: Option<String>,
        rtf: Option<String>,
        captured_at: String,
    ) -> (offered: bool)
        ensures
            old(self).one_kind() ==> final(self).one_kind(),
            offered == ((html is Some || rtf is Some) && rich_size(text@, opt_text(html), opt_text(rtf)) <= MAX_OFFERED_TEXT_BYTES),
            offered ==> (final(self).rich matches Some(o) && o.sequence == sequence && o.text == text && o.html == html
                && o.rtf == rtf && o.captured_at == captured_at && o.fallback_type@ == text_type(text@))
                && final(self).text is None && final(self).image is None && final(self).files is None,
            !offered ==> *final(self) == *old(self),
    {
        if html.is_none() && rtf.is_none() {
            return false;
        }
        let text_len = text.as_str().as_bytes().len();
        let html_len: usize = match &html {
            Some(h) => h.as_str().as_bytes().len(),
            None => 0,
        };
        let rtf_len: usize = match &rtf {
            Some(r) => r.as_str().as_bytes().len(),
            None => 0,
        };
        if text_len.saturating_add(html_len).saturating_add(rtf_len) > MAX_OFFERED_TEXT_BYTES {
            return false;
        }
        let fallback_type = String::from_str(text_content_type(text.as_str()));
        self.rich = Some(RichOffer { sequence, captured_at, text, html, rtf, fallback_type });
        self.text = None;
        self.image = None;
        self.files = None;
        true
    }

    /// Offers an image.
    pub fn offer_image(&mut self, image: I)
        ensures
            old(self).one_kind() ==> final(self).one_kind(),
            final(self).image == Some(image),
            final(self).text is None && final(self).rich is None && final(self).files is None,
    {
        self.image = Some(image);
        self.text = None;
        self.rich = None;
        self.files = None;
    }

    /// Offers files.
    pub fn offer_files(&mut self, files: F)
        ensures
            old(self).one_kind() ==> final(self).one_kind(),
            final(self).files == Some(files),
            final(self).text is None && final(self).rich is None && final(self).image is None,
    {
        self.files = Some(files);
        self.text = None;
        self.rich = None;
        self.image = None;
    }

    /// Drops the offered text where its type is no longer allowed.
    pub fn retain_enabled_latest_text(&mut self, allow_text: bool, allow_urls: bool)
        ensures
            old(self).one_kind() ==> final(self).one_kind(),
            final(self).rich == old(self).rich && final(self).image == old(self).image && final(self).files == old(self).files,
            final(self).text == match old(self).text {
                Some(o) => if (o.content_type@ == "url"@ && !allow_urls) || (o.content_type@ == "text"@ && !allow_text) {
                    None
                } else {
                    Some(o)
                },
                None => None,
            },
    {
        let drop = match &self.text {
            Some(o) => (str_equal(o.content_type.as_str(), "url") && !allow_urls)
                || (str_equal(o.content_type.as_str(), "text") && !allow_text),
            None => false,
        };
        if drop {
            self.text = None;
        }
    }

    /// HTML is no longer allowed: the rich offer goes, and its text takes
    /// the place of the offered text where the fallback's type is allowed.
    pub fn downgrade_latest_rich(&mut self, allow_text: bool, allow_urls: bool)
        ensures
            old(self).one_kind() ==> final(self).one_kind(),
            final(self).rich is None,
            final(self).image == old(self).image && final(self).files == old(self).files,
            match old(self).rich {
                Some(r) => if type_allowed(allow_text, allow_urls, r.fallback_type@) {
                    final(self).text matches Some(o) && o.sequence == r.sequence && o.captured_at == r.captured_at
                        && o.text == r.text && o.content_type == r.fallback_type
                } else {
                    final(self).text == old(self).text
                },
                None => final(self).text == old(self).text,
            },
    {
        let mut taken: Option<RichOffer> = None;
        std::mem::swap(&mut taken, &mut self.rich);
        match taken {
            Some(r) => {
                let allowed = if str_equal(r.fallback_type.as_str(), "url") { allow_urls } else { allow_text };
                if allowed {
                    self.text = Some(TextOffer {
                        sequence: r.sequence,
                        captured_at: r.captured_at,
                        text: r.text,
                        content_type: r.fallback_type,
                    });
                }
            },
            None => {},
        }
    }

    /// Drops the offered text.
    pub fn clear_latest_text(&mut self)
        ensures
            old(self).one_kind() ==> final(self).one_kind(),
            final(self).text is None,
            final(self).rich == old(self).rich && final(self).image == old(self).image && final(self).files == old(self).files,
    {
        self.text = None;
    }

    /// Drops the offered rich text.
    pub fn clear_latest_rich(&mut self)
        ensures
            old(self).one_kind() ==> final(self).one_kind(),
            final(self).rich is None,
            final(self).text == old(self).text && final(self).image == old(self).image && final(self).files == old(self).files,
    {
        self.rich = None;
    }

    /// Drops the offered image.
    pub fn clear_latest_image(&mut self)
        ensures
            old(self).one_kind() ==> final(self).one_kind(),
            final(self).image is None,
            final(self).text == old(self).text && final(self).rich == old(self).rich && final(self).files == old(self).files,
    {
        self.image = None;
    }

    /// Drops the offered files.
    pub fn clear_latest_files(&mut self)
        ensures
            old(self).one_kind() ==> final(self).one_kind(),
            final(self).files is None,
            final(self).text == old(self).text && final(self).rich == old(self).rich && final(self).image == old(self).image,
    {
        self.files = None;
    }
}

/// The groups through which `device_id` receives: those of its first
/// target.
pub open spec fn target_groups(targets: Seq<DeliveryTarget>, device_id: Seq<char>) -> Option<Seq<Seq<char>>>
    decreases targets.len(),
{
    if targets.len() == 0 {
        None
    } else if targets[0].device_id@ == device_id {
        Some(targets[0].group_ids.deep_view())
    } else {
        target_groups(targets.drop_first(), device_id)
    }
}

/// The groups through which `device_id` receives content of the targets'
/// type, if it is a target.
pub fn groups_for(targets: &[DeliveryTarget], device_id: &str) -> (groups: Option<Vec<String>>)
    ensures
        match groups {
            Some(g) => target_groups(targets@, device_id@) == Some(g.deep_view()),
            None => target_groups(targets@, device_id@) is None,
        },
{
    let mut i: usize = 0;
    proof {
        assert(targets@.skip(0) =~= targets@);
    }
    while i < targets.len()
        invariant
            i <= targets@.len(),
            target_groups(targets@, device_id@) == target_groups(targets@.skip(i as int), device_id@),
        decreases targets@.len() - i,
    {
        proof {
            assert(targets@.skip(i as int).drop_first() =~= targets@.skip(i + 1));
            assert(targets@.skip(i as int)[0] == targets@[i as int]);
        }
        if str_equal(targets[i].device_id.as_str(), device_id) {
            let groups = targets[i].group_ids.clone();
            proof {
                assert(groups.deep_view() =~= targets@[i as int].group_ids.deep_view());
            }
            return Some(groups);
        }
        i = i + 1;
    }
    proof {
        assert(targets@.skip(i as int) =~= Seq::<DeliveryTarget>::empty());
    }
    None
}

/// What a peer is sent of rich text.
pub enum RichSend {
    /// The rich text, through these groups.
    Rich(Vec<String>),
    /// Its text only, through these groups.
    Text(Vec<String>),
}

/// The rich text goes to a peer that takes rich text and receives HTML;
/// otherwise its text goes to a peer that takes text and receives the
/// fallback's type; otherwise nothing.
pub fn rich_delivery(caps: PeerCapabilities, rich_groups: Option<Vec<String>>, text_groups: Option<Vec<String>>) -> (send: Option<RichSend>)
    ensures
        match send {
            Some(RichSend::Rich(g)) => caps.rich_text && rich_groups == Some(g),
            Some(RichSend::Text(g)) => !(caps.rich_text && rich_groups is Some) && caps.text && text_groups == Some(g),
            None => !(caps.rich_text && rich_groups is Some) && !(caps.text && text_groups is Some),
        },
{
    if caps.rich_text {
        if let Some(g) = rich_groups {
            return Some(RichSend::Rich(g));
        }
    }
    if caps.text {
        if let Some(g) = text_groups {
            return Some(RichSend::Text(g));
        }
    }
    None
}

} // verus!
