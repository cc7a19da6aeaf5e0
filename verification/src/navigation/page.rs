use vstd::prelude::*;

verus! {

/// A page of an activity: a title, a description, whether it is shown, and its rank.
pub struct Page {
    title: &'static str,
    description: &'static str,
    isShow: bool,
    pub ordre: u8,
}

impl Page {
    pub closed spec fn spec_title(&self) -> Seq<char> {
        self.title@
    }

    pub closed spec fn spec_description(&self) -> Seq<char> {
        self.description@
    }

    pub closed spec fn spec_is_show(&self) -> bool {
        self.isShow
    }

    pub closed spec fn spec_ordre(&self) -> u8 {
        self.ordre
    }

    pub fn new(titre: &'static str, description: &'static str, isShow: bool, ordre: u8) -> (res: Self)
        ensures
            res.spec_title() == titre@,
            res.spec_description() == description@,
            res.spec_is_show() == isShow,
            res.spec_ordre() == ordre,
    {
        Page { title: titre, description, isShow, ordre }
    }

    pub fn title(&self) -> (res: &str)
        ensures
            res@ == self.spec_title(),
    {
        self.title
    }

    pub fn description(&self) -> (res: &str)
        ensures
            res@ == self.spec_description(),
    {
        self.description
    }

    pub fn isShow(&self) -> (res: bool)
        ensures
            res == self.spec_is_show(),
    {
        self.isShow
    }

    /// Marks the page as shown; nothing else changes.
    pub fn show(&mut self)
        ensures
            final(self).spec_is_show(),
            final(self).spec_title() == old(self).spec_title(),
            final(self).spec_description() == old(self).spec_description(),
            final(self).spec_ordre() == old(self).spec_ordre(),
    {
        self.isShow = true;
    }

    /// Marks the page as hidden; nothing else changes.
    pub fn hide_page(&mut self)
        ensures
            !final(self).spec_is_show(),
            final(self).spec_title() == old(self).spec_title(),
            final(self).spec_description() == old(self).spec_description(),
            final(self).spec_ordre() == old(self).spec_ordre(),
    {
        self.isShow = false;
    }
}

/// Something that owns a page.
pub trait PageTrait {
    fn page(&self) -> &Page;
}

} // verus!
