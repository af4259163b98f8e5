use vstd::prelude::*;
use crate::text::{decimal, push_all, push_str, string_of, to_decimal};

verus! {

/// A page of the settings window.
#[derive(Clone, Copy, PartialEq, Eq, Debug, Structural)]
pub enum SettingsPage {
    About,
    Connections,
    Interface,
    HotKeys,
    Editors,
    Applications,
    NodeInNet,
    Transfer,
    Security,
    Logging,
}

/// The pages in sidebar order; the network and transfer pages exist only
/// where peers are available.
pub open spec fn pages_of(with_peers: bool) -> Seq<SettingsPage> {
    seq![SettingsPage::About, SettingsPage::Connections, SettingsPage::Interface, SettingsPage::HotKeys, SettingsPage::Editors, SettingsPage::Applications]
        + (if with_peers { seq![SettingsPage::NodeInNet, SettingsPage::Transfer] } else { Seq::empty() })
        + seq![SettingsPage::Security, SettingsPage::Logging]
}

/// The pages of the settings window, in sidebar order.
pub fn settings_pages(with_peers: bool) -> (r: Vec<SettingsPage>)
    ensures
        r@ == pages_of(with_peers),
{
    let mut v: Vec<SettingsPage> = Vec::new();
    v.push(SettingsPage::About);
    v.push(SettingsPage::Connections);
    v.push(SettingsPage::Interface);
    v.push(SettingsPage::HotKeys);
    v.push(SettingsPage::Editors);
    v.push(SettingsPage::Applications);
    if with_peers {
        v.push(SettingsPage::NodeInNet);
        v.push(SettingsPage::Transfer);
    }
    v.push(SettingsPage::Security);
    v.push(SettingsPage::Logging);
    assert(v@ =~= pages_of(with_peers));
    v
}

/// The name of the settings page at `index` in the window's stack.
pub fn page_name(index: usize) -> (r: String)
    ensures
        r@ == "page_"@ + decimal(index as nat),
{
    let mut v: Vec<char> = Vec::new();
    push_str(&mut v, "page_");
    let digits = to_decimal(index as u128);
    push_all(&mut v, &digits);
    string_of(v.as_slice())
}

/// Which pages of the settings window have been built: a page is built
/// the first time it is selected, and only then.
pub struct PageBuilds {
    built: Vec<bool>,
}

impl PageBuilds {
    /// Which pages are built, in page order.
    pub closed spec fn built(&self) -> Seq<bool> {
        self.built@
    }

    /// `count` pages, none built yet.
    pub fn new(count: usize) -> (r: Self)
        ensures
            r.built().len() == count,
            forall|i: int| 0 <= i < count ==> !r.built()[i],
    {
        let mut built: Vec<bool> = Vec::new();
        let mut i: usize = 0;
        while i < count
            invariant
                0 <= i <= count,
                built@.len() == i,
                forall|k: int| 0 <= k < i ==> !built@[k],
            decreases count - i,
        {
            built.push(false);
            i = i + 1;
        }
        PageBuilds { built }
    }

    /// The page at `index` is selected: tells whether it must be built now
    /// (it exists and was not built), and records that it is.
    pub fn select(&mut self, index: usize) -> (build: bool)
        ensures
            build == (index < old(self).built().len() && !old(self).built()[index as int]),
            final(self).built() == (if index < old(self).built().len() {
                old(self).built().update(index as int, true)
            } else {
                old(self).built()
            }),
    {
        if index >= self.built.len() {
            return false;
        }
        let build = !self.built[index];
        self.built.set(index, true);
        build
    }
}

/// A page is built at most once: selecting it again asks for nothing.
pub proof fn law_page_built_once(before: Seq<bool>, index: int)
    requires
        0 <= index < before.len(),
    ensures
        ({
            let after = before.update(index, true);
            &&& after[index]
            &&& after.len() == before.len()
            &&& !(index < after.len() && !after[index])
        }),
{
}

} // verus!
