use vstd::prelude::*;

use crate::navigation::page::{Page, PageTrait};

verus! {

/// The home page of the todo activity.
pub struct Home {
    pub page: Page,
}

impl Home {
    /// The page `todoHome`, "Page principale du todo", shown, of rank 1.
    pub fn init() -> (res: Self)
        ensures
            res.page.spec_title() == "todoHome"@,
            res.page.spec_description() == "Page principale du todo"@,
            res.page.spec_is_show(),
            res.page.spec_ordre() == 1,
    {
        let page: Page = Page::new("todoHome", "Page principale du todo", true, 1);
        Home { page }
    }
}

impl PageTrait for Home {
    fn page(&self) -> (res: &Page)
        ensures
            *res == self.page,
    {
        &self.page
    }
}

} // verus!
