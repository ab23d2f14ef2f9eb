//! Server responses: the tag, the optional response code and the optional
//! human-readable text, together with their mathematical views.

use vstd::prelude::*;
use vstd::string::*;
use crate::codec::{decimal, decimal_text};

verus! {

/// Which capacity limit a `QUOTA` response code refers to.
#[derive(Debug, PartialEq, Eq, Clone, Copy, Structural)]
pub enum Quota {
    Unspecified,
    MaxScripts,
    MaxSize,
}

/// The tag that opens a response line.
#[derive(Debug, PartialEq, Eq, Clone, Copy, Structural)]
pub enum Tag {
    Okay,
    No,
    Bye,
}

impl DeepView for Tag {
    type V = Tag;

    open spec fn deep_view(&self) -> Tag {
        *self
    }
}

impl DeepView for Quota {
    type V = Quota;

    open spec fn deep_view(&self) -> Quota {
        *self
    }
}

impl Tag {
    /// The tag as it stands on the wire.
    pub open spec fn text(self) -> Seq<char> {
        match self {
            Tag::Okay => "OK"@,
            Tag::No => "NO"@,
            Tag::Bye => "BYE"@,
        }
    }

    pub fn to_text(&self) -> (text: String)
        ensures
            text@ == self.text(),
    {
        match self {
            Tag::Okay => "OK".to_owned(),
            Tag::No => "NO".to_owned(),
            Tag::Bye => "BYE".to_owned(),
        }
    }

    pub fn is_no(&self) -> (no: bool)
        ensures
            no == (*self == Tag::No),
    {
        match self {
            Tag::No => true,
            _ => false,
        }
    }
}

/// One item of the data that follows the name of an unrecognised response
/// code.
#[derive(Debug, PartialEq)]
pub enum ExtensionItem {
    String(String),
    Number(u64),
    ExtensionData(Vec<ExtensionItem>),
}

/// Mathematical value of an [`ExtensionItem`].
pub ghost enum ExtensionItemView {
    String(Seq<char>),
    Number(u64),
    ExtensionData(Seq<ExtensionItemView>),
}

/// The text of an item: a string as it is, a number in decimal, and a
/// list as the texts of its items in parentheses, with a space between
/// one and the next.
pub open spec fn item_text(item: ExtensionItemView) -> Seq<char>
    decreases item, 0nat,
{
    match item {
        ExtensionItemView::String(s) => s,
        ExtensionItemView::Number(n) => decimal(n as nat),
        ExtensionItemView::ExtensionData(items) => "("@ + items_text(items, items.len()) + ")"@,
    }
}

/// The texts of the first `n` of `items`, with a space between one and
/// the next.
pub open spec fn items_text(items: Seq<ExtensionItemView>, n: nat) -> Seq<char>
    decreases items, n,
{
    if n == 0 || n > items.len() {
        Seq::empty()
    } else if n == 1 {
        item_text(items[0])
    } else {
        items_text(items, (n - 1) as nat) + " "@ + item_text(items[n - 1])
    }
}

/// The value of an item: that of a list is the list of the values of its
/// items.
pub open spec fn item_view(item: ExtensionItem) -> ExtensionItemView
    decreases item,
{
    match item {
        ExtensionItem::String(s) => ExtensionItemView::String(s@),
        ExtensionItem::Number(n) => ExtensionItemView::Number(n),
        ExtensionItem::ExtensionData(items) => ExtensionItemView::ExtensionData(
            Seq::new(
                items@.len(),
                |i: int|
                    if 0 <= i < items@.len() {
                        item_view(items@[i])
                    } else {
                        ExtensionItemView::Number(0)
                    },
            ),
        ),
    }
}

impl View for ExtensionItem {
    type V = ExtensionItemView;

    open spec fn view(&self) -> ExtensionItemView {
        item_view(*self)
    }
}

impl Clone for ExtensionItem {
    #[verifier::loop_isolation(false)]
    fn clone(&self) -> (copy: ExtensionItem)
        ensures
            copy@ == self@,
        decreases self,
    {
        match self {
            ExtensionItem::String(s) => ExtensionItem::String(s.clone()),
            ExtensionItem::Number(n) => ExtensionItem::Number(*n),
            ExtensionItem::ExtensionData(items) => {
                let mut copies: Vec<ExtensionItem> = Vec::new();
                let mut i: usize = 0;
                while i < items.len()
                    invariant
                        i <= items.len(),
                        copies.len() == i,
                        forall|k: int| 0 <= k < i ==> copies@[k]@ == items@[k]@,
                    decreases items.len() - i,
                {
                    assert(decreases_to!(self => items@[i as int]));
                    let copy = items[i].clone();
                    copies.push(copy);
                    i += 1;
                }
                let copy = ExtensionItem::ExtensionData(copies);
                assert(copy@->ExtensionData_0 =~= self@->ExtensionData_0);
                copy
            },
        }
    }
}

/// Writes out `items` with a space between one and the next.
pub fn items_to_text(items: &Vec<ExtensionItem>) -> (text: String)
    ensures
        text@ == items_text(items.deep_view(), items.deep_view().len()),
    decreases items, 1nat,
{
    let mut text = String::new();
    let mut k: usize = 0;
    while k < items.len()
        invariant
            k <= items.len(),
            items.deep_view().len() == items.len(),
            text@ == items_text(items.deep_view(), k as nat),
        decreases items.len() - k,
    {
        assert(items.deep_view()[k as int] == items@[k as int]@);
        assert(decreases_to!(items => items@[k as int]));
        let piece = items[k].to_text();
        if k > 0 {
            text.append(" ");
        }
        text.append(piece.as_str());
        assert(text@ =~= items_text(items.deep_view(), (k + 1) as nat));
        k += 1;
    }
    text
}

impl ExtensionItem {
    /// Writes the item out.
    pub fn to_text(&self) -> (text: String)
        ensures
            text@ == item_text(self@),
        decreases self, 0nat,
    {
        match self {
            ExtensionItem::String(s) => s.clone(),
            ExtensionItem::Number(n) => decimal_text(*n),
            ExtensionItem::ExtensionData(items) => {
                proof {
                    ExtensionItem::lemma_list_view(*self);
                }
                let mut text = "(".to_owned();
                let inner = items_to_text(items);
                text.append(inner.as_str());
                text.append(")");
                text
            },
        }
    }

    /// The value of a list item is the list of the values of its items.
    pub proof fn lemma_list_view(item: ExtensionItem)
        requires
            item is ExtensionData,
        ensures
            item@ == ExtensionItemView::ExtensionData(item->ExtensionData_0.deep_view()),
    {
        assert(item@->ExtensionData_0 =~= item->ExtensionData_0.deep_view());
    }
}

impl DeepView for ExtensionItem {
    type V = ExtensionItemView;

    open spec fn deep_view(&self) -> ExtensionItemView {
        self@
    }
}

/// The parenthesised code of a response line.
#[derive(Debug, PartialEq, Clone)]
pub enum ResponseCode {
    AuthTooWeak,
    EncryptNeeded,
    Quota(Quota),
    Referral(String),
    Sasl(String),
    TransitionNeeded,
    TryLater,
    Active,
    Nonexistent,
    AlreadyExists,
    Warnings,
    Tag(String),
    Extension { name: String, data: Option<Vec<ExtensionItem>> },
}

/// Mathematical value of a [`ResponseCode`].
pub ghost enum ResponseCodeView {
    AuthTooWeak,
    EncryptNeeded,
    Quota(Quota),
    Referral(Seq<char>),
    Sasl(Seq<char>),
    TransitionNeeded,
    TryLater,
    Active,
    Nonexistent,
    AlreadyExists,
    Warnings,
    Tag(Seq<char>),
    Extension { name: Seq<char>, data: Option<Seq<ExtensionItemView>> },
}

impl View for ResponseCode {
    type V = ResponseCodeView;

    open spec fn view(&self) -> ResponseCodeView {
        match self {
            ResponseCode::AuthTooWeak => ResponseCodeView::AuthTooWeak,
            ResponseCode::EncryptNeeded => ResponseCodeView::EncryptNeeded,
            ResponseCode::Quota(q) => ResponseCodeView::Quota(*q),
            ResponseCode::Referral(url) => ResponseCodeView::Referral(url@),
            ResponseCode::Sasl(data) => ResponseCodeView::Sasl(data@),
            ResponseCode::TransitionNeeded => ResponseCodeView::TransitionNeeded,
            ResponseCode::TryLater => ResponseCodeView::TryLater,
            ResponseCode::Active => ResponseCodeView::Active,
            ResponseCode::Nonexistent => ResponseCodeView::Nonexistent,
            ResponseCode::AlreadyExists => ResponseCodeView::AlreadyExists,
            ResponseCode::Warnings => ResponseCodeView::Warnings,
            ResponseCode::Tag(tag) => ResponseCodeView::Tag(tag@),
            ResponseCode::Extension { name, data } => ResponseCodeView::Extension {
                name: name@,
                data: data.deep_view(),
            },
        }
    }
}

impl ResponseCodeView {
    /// The code as a reader sees it. The data of `SASL` is left out.
    pub open spec fn text(self) -> Seq<char> {
        match self {
            ResponseCodeView::AuthTooWeak => "AUTH-TOO-WEAK"@,
            ResponseCodeView::EncryptNeeded => "ENCRYPT-NEEDED"@,
            ResponseCodeView::Quota(Quota::Unspecified) => "QUOTA"@,
            ResponseCodeView::Quota(Quota::MaxScripts) => "QUOTA/MAXSCRIPTS"@,
            ResponseCodeView::Quota(Quota::MaxSize) => "QUOTA/MAXSIZE"@,
            ResponseCodeView::Referral(url) => "REFERRAL "@ + url,
            ResponseCodeView::Sasl(_) => "SASL ..."@,
            ResponseCodeView::TransitionNeeded => "TRANSITION-NEEDED"@,
            ResponseCodeView::TryLater => "TRYLATER"@,
            ResponseCodeView::Active => "ACTIVE"@,
            ResponseCodeView::Nonexistent => "NONEXISTENT"@,
            ResponseCodeView::AlreadyExists => "ALREADYEXISTS"@,
            ResponseCodeView::Warnings => "WARNINGS"@,
            ResponseCodeView::Tag(tag) => "TAG "@ + tag,
            ResponseCodeView::Extension { name, data } => name + " "@ + (match data {
                Some(items) => items_text(items, items.len()),
                None => Seq::empty(),
            }),
        }
    }
}

impl ResponseCode {
    /// Writes the code out.
    pub fn to_text(&self) -> (text: String)
        ensures
            text@ == self@.text(),
    {
        match self {
            ResponseCode::AuthTooWeak => "AUTH-TOO-WEAK".to_owned(),
            ResponseCode::EncryptNeeded => "ENCRYPT-NEEDED".to_owned(),
            ResponseCode::Quota(Quota::Unspecified) => "QUOTA".to_owned(),
            ResponseCode::Quota(Quota::MaxScripts) => "QUOTA/MAXSCRIPTS".to_owned(),
            ResponseCode::Quota(Quota::MaxSize) => "QUOTA/MAXSIZE".to_owned(),
            ResponseCode::Referral(url) => {
                let mut text = "REFERRAL ".to_owned();
                text.append(url.as_str());
                text
            },
            ResponseCode::Sasl(_) => "SASL ...".to_owned(),
            ResponseCode::TransitionNeeded => "TRANSITION-NEEDED".to_owned(),
            ResponseCode::TryLater => "TRYLATER".to_owned(),
            ResponseCode::Active => "ACTIVE".to_owned(),
            ResponseCode::Nonexistent => "NONEXISTENT".to_owned(),
            ResponseCode::AlreadyExists => "ALREADYEXISTS".to_owned(),
            ResponseCode::Warnings => "WARNINGS".to_owned(),
            ResponseCode::Tag(tag) => {
                let mut text = "TAG ".to_owned();
                text.append(tag.as_str());
                text
            },
            ResponseCode::Extension { name, data } => {
                let mut text = name.clone();
                text.append(" ");
                if let Some(items) = data {
                    let inner = items_to_text(items);
                    text.append(inner.as_str());
                } else {
                    assert(text@ + Seq::<char>::empty() =~= text@);
                }
                text
            },
        }
    }
}

impl DeepView for ResponseCode {
    type V = ResponseCodeView;

    open spec fn deep_view(&self) -> ResponseCodeView {
        self@
    }
}

/// What a response line says besides its tag.
#[derive(Debug, PartialEq, Clone)]
pub struct ResponseInfo {
    pub code: Option<ResponseCode>,
    pub human: Option<String>,
}

/// Mathematical value of a [`ResponseInfo`].
pub ghost struct ResponseInfoView {
    pub code: Option<ResponseCodeView>,
    pub human: Option<Seq<char>>,
}

impl View for ResponseInfo {
    type V = ResponseInfoView;

    open spec fn view(&self) -> ResponseInfoView {
        ResponseInfoView { code: self.code.deep_view(), human: self.human.deep_view() }
    }
}

impl ResponseInfoView {
    /// The code in parentheses and the text, with a space between them
    /// where both are there.
    pub open spec fn text(self) -> Seq<char> {
        (match self.code {
            Some(code) => "("@ + code.text() + ")"@,
            None => Seq::empty(),
        }) + (if self.code is Some && self.human is Some {
            " "@
        } else {
            Seq::empty()
        }) + (match self.human {
            Some(human) => human,
            None => Seq::empty(),
        })
    }
}

impl ResponseInfo {
    /// Writes out what a response says besides its tag.
    pub fn to_text(&self) -> (text: String)
        ensures
            text@ == self@.text(),
    {
        let mut text = String::new();
        if let Some(code) = &self.code {
            text.append("(");
            let code = code.to_text();
            text.append(code.as_str());
            text.append(")");
        }
        if self.code.is_some() && self.human.is_some() {
            text.append(" ");
        }
        if let Some(human) = &self.human {
            text.append(human.as_str());
        }
        assert(text@ =~= self@.text());
        text
    }
}

impl DeepView for ResponseInfo {
    type V = ResponseInfoView;

    open spec fn deep_view(&self) -> ResponseInfoView {
        self@
    }
}

/// A complete response line.
#[derive(Debug, PartialEq, Clone)]
pub struct Response {
    pub tag: Tag,
    pub info: ResponseInfo,
}

/// Mathematical value of a [`Response`].
pub ghost struct ResponseView {
    pub tag: Tag,
    pub info: ResponseInfoView,
}

impl View for Response {
    type V = ResponseView;

    open spec fn view(&self) -> ResponseView {
        ResponseView { tag: self.tag, info: self.info@ }
    }
}

impl DeepView for Response {
    type V = ResponseView;

    open spec fn deep_view(&self) -> ResponseView {
        self@
    }
}

impl Response {
    /// A response that carries nothing but its tag.
    pub fn new(tag: Tag) -> (response: Response)
        ensures
            response@ == (ResponseView { tag, info: ResponseInfoView { code: None, human: None } }),
    {
        Response { tag, info: ResponseInfo { code: None, human: None } }
    }
}

} // verus!
