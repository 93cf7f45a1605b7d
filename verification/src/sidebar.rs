//! Sidebar navigation: the fixed items, their labels and shortcuts, the
//! per-bucket counts, and the selection state that moves through items and
//! projects.

use vstd::prelude::*;

use crate::model::Project;

verus! {

/// The fixed sidebar entries, top to bottom.
#[derive(Debug, Clone, Copy, PartialEq, Eq, Structural)]
pub enum SidebarItem {
    Inbox,
    Today,
    Upcoming,
    Anytime,
    Completed,
    Review,
    GitHub,
    Toggl,
    Settings,
}

impl SidebarItem {
    /// The fixed order of the sidebar entries.
    pub open spec fn spec_all() -> Seq<SidebarItem> {
        seq![
            SidebarItem::Inbox,
            SidebarItem::Today,
            SidebarItem::Upcoming,
            SidebarItem::Anytime,
            SidebarItem::Completed,
            SidebarItem::Review,
            SidebarItem::GitHub,
            SidebarItem::Toggl,
            SidebarItem::Settings,
        ]
    }

    /// All entries in display order.
    pub fn all() -> (r: Vec<SidebarItem>)
        ensures
            r@ == Self::spec_all(),
    {
        let mut r: Vec<SidebarItem> = Vec::new();
        r.push(SidebarItem::Inbox);
        r.push(SidebarItem::Today);
        r.push(SidebarItem::Upcoming);
        r.push(SidebarItem::Anytime);
        r.push(SidebarItem::Completed);
        r.push(SidebarItem::Review);
        r.push(SidebarItem::GitHub);
        r.push(SidebarItem::Toggl);
        r.push(SidebarItem::Settings);
        proof {
            assert(r@ =~= Self::spec_all());
        }
        r
    }

    /// Display label of an entry.
    pub fn label(&self) -> (r: &'static str)
        ensures
            r@ == match *self {
                SidebarItem::Inbox => "Inbox"@,
                SidebarItem::Today => "Today"@,
                SidebarItem::Upcoming => "Upcoming"@,
                SidebarItem::Anytime => "Anytime"@,
                SidebarItem::Completed => "Completed"@,
                SidebarItem::Review => "Review"@,
                SidebarItem::GitHub => "GitHub"@,
                SidebarItem::Toggl => "Toggl"@,
                SidebarItem::Settings => "Settings"@,
            },
    {
        match self {
            SidebarItem::Inbox => "Inbox",
            SidebarItem::Today => "Today",
            SidebarItem::Upcoming => "Upcoming",
            SidebarItem::Anytime => "Anytime",
            SidebarItem::Completed => "Completed",
            SidebarItem::Review => "Review",
            SidebarItem::GitHub => "GitHub",
            SidebarItem::Toggl => "Toggl",
            SidebarItem::Settings => "Settings",
        }
    }

    /// Icon glyph of an entry.
    pub fn icon(&self) -> (r: &'static str)
        ensures
            r@ == match *self {
                SidebarItem::Inbox => "\u{f01ef}"@,
                SidebarItem::Today => "\u{f00ed}"@,
                SidebarItem::Upcoming => "\u{f00ee}"@,
                SidebarItem::Anytime => "\u{f051a}"@,
                SidebarItem::Completed => "\u{f0132}"@,
                SidebarItem::Review => "\u{f0453}"@,
                SidebarItem::GitHub => "\u{f02a4}"@,
                SidebarItem::Toggl => "\u{f13ab}"@,
                SidebarItem::Settings => "\u{f0493}"@,
            },
    {
        match self {
            SidebarItem::Inbox => "\u{f01ef}",
            SidebarItem::Today => "\u{f00ed}",
            SidebarItem::Upcoming => "\u{f00ee}",
            SidebarItem::Anytime => "\u{f051a}",
            SidebarItem::Completed => "\u{f0132}",
            SidebarItem::Review => "\u{f0453}",
            SidebarItem::GitHub => "\u{f02a4}",
            SidebarItem::Toggl => "\u{f13ab}",
            SidebarItem::Settings => "\u{f0493}",
        }
    }

    /// Number-key shortcut of an entry.
    pub fn shortcut(&self) -> (r: &'static str)
        ensures
            r@ == match *self {
                SidebarItem::Inbox => "1"@,
                SidebarItem::Today => "2"@,
                SidebarItem::Upcoming => "3"@,
                SidebarItem::Anytime => "4"@,
                SidebarItem::Completed => "5"@,
                SidebarItem::Review => "6"@,
                SidebarItem::GitHub => "7"@,
                SidebarItem::Toggl => "8"@,
                SidebarItem::Settings => "9"@,
            },
    {
        match self {
            SidebarItem::Inbox => "1",
            SidebarItem::Today => "2",
            SidebarItem::Upcoming => "3",
            SidebarItem::Anytime => "4",
            SidebarItem::Completed => "5",
            SidebarItem::Review => "6",
            SidebarItem::GitHub => "7",
            SidebarItem::Toggl => "8",
            SidebarItem::Settings => "9",
        }
    }

    /// The entry at a display position, if the position exists.
    pub fn from_index(index: usize) -> (r: Option<SidebarItem>)
        ensures
            r == if index < Self::spec_all().len() {
                Some(Self::spec_all()[index as int])
            } else {
                None::<SidebarItem>
            },
    {
        let all = Self::all();
        if index < all.len() {
            Some(all[index])
        } else {
            None
        }
    }
}

/// How many tasks each bucket holds, shown next to the entries.
#[derive(Default)]
pub struct SidebarCounts {
    pub inbox: i64,
    pub today: i64,
    pub upcoming: i64,
    pub anytime: i64,
    pub completed: i64,
    pub review: i64,
}

/// The count shown next to an entry; the remote and settings entries show
/// none.
pub fn get_count(item: &SidebarItem, counts: &SidebarCounts) -> (r: Option<i64>)
    ensures
        r == match *item {
            SidebarItem::Inbox => Some(counts.inbox),
            SidebarItem::Today => Some(counts.today),
            SidebarItem::Upcoming => Some(counts.upcoming),
            SidebarItem::Anytime => Some(counts.anytime),
            SidebarItem::Completed => Some(counts.completed),
            SidebarItem::Review => Some(counts.review),
            _ => None::<i64>,
        },
{
    match item {
        SidebarItem::Inbox => Some(counts.inbox),
        SidebarItem::Today => Some(counts.today),
        SidebarItem::Upcoming => Some(counts.upcoming),
        SidebarItem::Anytime => Some(counts.anytime),
        SidebarItem::Completed => Some(counts.completed),
        SidebarItem::Review => Some(counts.review),
        _ => None,
    }
}

} // verus!
