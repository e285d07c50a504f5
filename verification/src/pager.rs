//! Paging decisions for the tag listing.
//!
//! The interaction loop lives with the caller: it shows the current page,
//! waits for a button press, fetches the next chunk of rendered tags when the
//! pager asks for one, and hands the decision back here. The pager itself
//! only decides which page is current and which pages are cached.

use vstd::prelude::*;

verus! {

/// The cached pages of one tag listing and the page on display.
pub struct TagPager {
    pages: Vec<String>,
    current: usize,
}

impl TagPager {
    /// The cached pages, in order.
    pub closed spec fn spec_pages(self) -> Seq<Seq<char>> {
        self.pages@.map_values(|p: String| p@)
    }

    /// The index of the page on display.
    pub closed spec fn spec_current(self) -> int {
        self.current as int
    }

    /// The page on display is always a cached one.
    pub open spec fn wf(self) -> bool {
        0 <= self.spec_current() < self.spec_pages().len()
    }

    /// A pager showing the first fetched page.
    pub fn new(first_page: String) -> (r: TagPager)
        ensures
            r.wf(),
            r.spec_pages() == seq![first_page@],
            r.spec_current() == 0,
    {
        let mut pages: Vec<String> = Vec::new();
        pages.push(first_page);
        proof {
            assert(pages@.map_values(|p: String| p@) =~= seq![first_page@]);
        }
        TagPager { pages, current: 0 }
    }

    /// The text of the page on display.
    pub fn current_page(&self) -> (r: &String)
        requires
            self.wf(),
        ensures
            r@ == self.spec_pages()[self.spec_current()],
    {
        proof {
            assert(self.spec_pages().len() == self.pages@.len());
        }
        &self.pages[self.current]
    }

    /// Whether moving forward needs no fetch because the next page is cached.
    pub fn has_cached_next(&self) -> (r: bool)
        requires
            self.wf(),
        ensures
            r <==> self.spec_current() + 1 < self.spec_pages().len(),
    {
        proof {
            assert(self.spec_pages().len() == self.pages@.len());
        }
        self.current < self.pages.len() - 1
    }

    /// Move one page forward. A cached next page is shown as it is; otherwise
    /// a newly fetched non-empty page is cached and shown, and an empty or
    /// missing fetch wraps the display back to the first page.
    pub fn next_page(&mut self, fetched: Option<String>)
        requires
            old(self).wf(),
        ensures
            final(self).wf(),
            old(self).spec_current() + 1 < old(self).spec_pages().len() ==> {
                &&& final(self).spec_pages() == old(self).spec_pages()
                &&& final(self).spec_current() == old(self).spec_current() + 1
            },
            old(self).spec_current() + 1 == old(self).spec_pages().len() ==> match fetched {
                Option::Some(p) => if p@.len() > 0 {
                    &&& final(self).spec_pages() == old(self).spec_pages().push(p@)
                    &&& final(self).spec_current() == old(self).spec_current() + 1
                } else {
                    &&& final(self).spec_pages() == old(self).spec_pages()
                    &&& final(self).spec_current() == 0
                },
                Option::None => {
                    &&& final(self).spec_pages() == old(self).spec_pages()
                    &&& final(self).spec_current() == 0
                },
            },
    {
        proof {
            assert(old(self).spec_pages().len() == self.pages@.len());
        }
        if self.current < self.pages.len() - 1 {
            self.current = self.current + 1;
        } else {
            match fetched {
                Option::Some(p) => {
                    if p.as_str().unicode_len() > 0 {
                        let ghost pre = self.pages@.map_values(|q: String| q@);
                        self.pages.push(p);
                        proof {
                            assert(self.pages@.map_values(|q: String| q@) =~= pre.push(p@));
                        }
                        self.current = self.current + 1;
                    } else {
                        self.current = 0;
                    }
                },
                Option::None => {
                    self.current = 0;
                },
            }
        }
    }

    /// Move one page back, staying on the first page when already there.
    pub fn prev_page(&mut self)
        requires
            old(self).wf(),
        ensures
            final(self).wf(),
            final(self).spec_pages() == old(self).spec_pages(),
            final(self).spec_current() == if old(self).spec_current() > 0 {
                old(self).spec_current() - 1
            } else {
                0
            },
    {
        if self.current > 0 {
            self.current = self.current - 1;
        }
    }
}

} // verus!
