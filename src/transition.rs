use vstd::prelude::*;

verus! {

/// The core kind of a navigation transition, the low byte of its packed value.
#[derive(Clone, Copy, Debug, PartialEq, Eq, Structural)]
pub enum PageTransitionType {
    /// User arrived at this page by clicking a link on another page
    Link,
    /// User typed URL into the Omnibar, or clicked a suggested URL in the Omnibar
    Typed,
    /// User arrived at page through a bookmark or similar (eg. "most visited" suggestions on a new tab)
    AutoBookmark,
    /// Automatic navigation within a sub frame (eg an embedded ad)
    AutoSubframe,
    /// Manual navigation in a sub frame
    ManualSubframe,
    /// User selected suggestion from Omnibar (ie. typed part of an address or search term then selected a suggestion which was not a URL)
    Generated,
    /// Start page (or specified as a command line argument)
    StartPage,
    /// User arrived at this page as a result of submitting a form
    FormSubmit,
    /// Page was reloaded; either by clicking the refresh button, hitting F5, hitting enter in the address bar or as result of restoring a previous session
    Reload,
    /// Generated as a result of a keyword search, not using the default search provider (for example using tab-to-search on Wikipedia)
    Keyword,
    /// May generate with [PageTransitionType::Keyword] for the url: http:// + keyword
    KeywordGenerated,
}

/// The single-bit qualifiers packed into the upper bits of a transition.
#[derive(Clone, Copy, Debug, PartialEq, Eq, Structural)]
pub struct PageTransitionQualifiers {
    /// User used the back or forward buttons to arrive at this page
    pub back_forward: bool,
    /// User used the address bar to trigger this navigation
    pub address_bar: bool,
    /// User is navigating to the homepage
    pub homepage: bool,
    /// The beginning of a navigation chain
    pub chain_start: bool,
    /// Last transition in a redirect chain
    pub redirect_chain_end: bool,
    /// Transition was a client-side redirect (eg. caused by JavaScript or a meta-tag redirect)
    pub client_redirect: bool,
    /// Transition was a server-side redirect (ie a redirect specified in the HTTP response header)
    pub server_redirect: bool,
}

/// A packed 32-bit navigation transition, kept verbatim as read.
#[derive(Clone, Copy, Debug)]
pub struct PageTransition(pub u32);

/// The kind held in the low byte of `raw`, or that byte when it names no kind.
pub open spec fn kind_of(raw: u32) -> Result<PageTransitionType, u8> {
    let low = (raw % 256) as u8;
    if low == 0 {
        Ok(PageTransitionType::Link)
    } else if low == 1 {
        Ok(PageTransitionType::Typed)
    } else if low == 2 {
        Ok(PageTransitionType::AutoBookmark)
    } else if low == 3 {
        Ok(PageTransitionType::AutoSubframe)
    } else if low == 4 {
        Ok(PageTransitionType::ManualSubframe)
    } else if low == 5 {
        Ok(PageTransitionType::Generated)
    } else if low == 6 {
        Ok(PageTransitionType::StartPage)
    } else if low == 7 {
        Ok(PageTransitionType::FormSubmit)
    } else if low == 8 {
        Ok(PageTransitionType::Reload)
    } else if low == 9 {
        Ok(PageTransitionType::Keyword)
    } else if low == 10 {
        Ok(PageTransitionType::KeywordGenerated)
    } else {
        Err(low)
    }
}

pub open spec fn bit_set(raw: u32, mask: u32) -> bool {
    raw & mask == mask
}

/// The qualifiers of `raw`: the first two are true when their bit is set, the
/// other five when their bit is clear.
pub open spec fn qualifiers_of(raw: u32) -> PageTransitionQualifiers {
    PageTransitionQualifiers {
        back_forward: bit_set(raw, 0x0100_0000),
        address_bar: bit_set(raw, 0x0200_0000),
        homepage: !bit_set(raw, 0x0400_0000),
        chain_start: !bit_set(raw, 0x1000_0000),
        redirect_chain_end: !bit_set(raw, 0x2000_0000),
        client_redirect: !bit_set(raw, 0x4000_0000),
        server_redirect: !bit_set(raw, 0x8000_0000),
    }
}

impl PageTransition {
    /// The core transition kind; a low byte outside the known kinds is
    /// returned as `Err` with that byte.
    pub fn kind(self) -> (r: Result<PageTransitionType, u8>)
        ensures
            r == kind_of(self.0),
    {
        let raw: u32 = self.0;
        let low: u8 = (raw & 0xFF) as u8;
        assert(raw & 0xFF == raw % 256) by (bit_vector);
        match low {
            0 => Ok(PageTransitionType::Link),
            1 => Ok(PageTransitionType::Typed),
            2 => Ok(PageTransitionType::AutoBookmark),
            3 => Ok(PageTransitionType::AutoSubframe),
            4 => Ok(PageTransitionType::ManualSubframe),
            5 => Ok(PageTransitionType::Generated),
            6 => Ok(PageTransitionType::StartPage),
            7 => Ok(PageTransitionType::FormSubmit),
            8 => Ok(PageTransitionType::Reload),
            9 => Ok(PageTransitionType::Keyword),
            10 => Ok(PageTransitionType::KeywordGenerated),
            other => Err(other),
        }
    }

    /// The seven qualifier flags of this transition.
    pub fn qualifiers(self) -> (r: PageTransitionQualifiers)
        ensures
            r == qualifiers_of(self.0),
    {
        PageTransitionQualifiers {
            back_forward: (self.0 & 0x0100_0000) == 0x0100_0000,
            address_bar: (self.0 & 0x0200_0000) == 0x0200_0000,
            homepage: (self.0 & 0x0400_0000) != 0x0400_0000,
            chain_start: (self.0 & 0x1000_0000) != 0x1000_0000,
            redirect_chain_end: (self.0 & 0x2000_0000) != 0x2000_0000,
            client_redirect: (self.0 & 0x4000_0000) != 0x4000_0000,
            server_redirect: (self.0 & 0x8000_0000) != 0x8000_0000,
        }
    }
}

} // verus!
