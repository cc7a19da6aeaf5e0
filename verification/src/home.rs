use vstd::prelude::*;

use crate::navigation::page::{Page, PageTrait};

verus! {

/// The home page of the application.
pub struct Home {
    pub page: Page,
}

impl Home {
    /// The page `Home`, "Page principale", shown, of rank 1.
    pub fn init() -> (res: Self)
        ensures
            res.page.spec_title() == "Home"@,
            res.page.spec_description() == "Page principale"@,
            res.page.spec_is_show(),
            res.page.spec_ordre() == 1,
    {
        let page: Page = Page::new("Home", "Page principale", true, 1);
        Home { page }
    }
}

impl PageTrait for Home {
    fn page(&self) -> (res: &Page)
        ensures
            *res == self.page,
    {
        &self.page
    }
}

} // verus!
