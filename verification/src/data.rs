//! Read-only context records supplied to a render call.

use vstd::prelude::*;

verus! {

/// Mathematical model of [`PageInfo`].
pub struct PageInfoView {
    pub page: Seq<char>,
    pub site: Seq<char>,
    pub title: Seq<char>,
    pub alt_title: Option<Seq<char>>,
    pub rating: i64,
    pub language: Seq<char>,
}

/// Identity and context of the page being rendered. Supplied per render
/// call and never mutated by the pipeline.
pub struct PageInfo {
    pub page: String,
    pub site: String,
    pub title: String,
    pub alt_title: Option<String>,
    /// Score of the page, in whole rating points.
    pub rating: i64,
    pub language: String,
}

impl View for PageInfo {
    type V = PageInfoView;

    open spec fn view(&self) -> PageInfoView {
        PageInfoView {
            page: self.page@,
            site: self.site@,
            title: self.title@,
            alt_title: match self.alt_title {
                Some(t) => Some(t@),
                None => None,
            },
            rating: self.rating,
            language: self.language@,
        }
    }
}

/// Mathematical model of [`UserInfo`].
pub struct UserInfoView {
    pub user_name: Seq<char>,
    pub user_profile_url: Seq<char>,
}

/// Structured facts about a user, as resolved by the handle.
pub struct UserInfo {
    pub user_name: String,
    pub user_profile_url: String,
}

impl View for UserInfo {
    type V = UserInfoView;

    open spec fn view(&self) -> UserInfoView {
        UserInfoView { user_name: self.user_name@, user_profile_url: self.user_profile_url@ }
    }
}

} // verus!
