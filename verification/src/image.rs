//! Machine images, and where they have been published.

use crate::assoc::{
    collected, firsts, keys_of, lemma_collected, lemma_map_of_entry, map_of, AssocMap,
};
use vstd::prelude::*;

verus! {

/// An account ID, in its 12-digit string form.
pub type AccountId = String;

/// Identifies a single image: a region together with the account that owns the image. A single
/// region can contain multiple accounts when multiple roles are configured for it.
#[derive(Clone, Debug, PartialEq, Eq, Hash)]
pub struct RegionAccount {
    pub region: String,
    pub account_id: AccountId,
}

pub struct RegionAccountView {
    pub region: Seq<char>,
    pub account_id: Seq<char>,
}

impl View for RegionAccount {
    type V = RegionAccountView;

    open spec fn view(&self) -> RegionAccountView {
        RegionAccountView { region: self.region@, account_id: self.account_id@ }
    }
}

impl DeepView for RegionAccount {
    type V = RegionAccountView;

    open spec fn deep_view(&self) -> RegionAccountView {
        self@
    }
}

/// Who may launch an image.
#[derive(Clone, Debug, PartialEq, Eq, Hash)]
pub enum LaunchPermissionDef {
    /// The name of a group.
    Group(String),
    /// An account ID.
    UserId(String),
    /// The ARN of an organization.
    OrganizationArn(String),
    /// The ARN of an organizational unit.
    OrganizationalUnitArn(String),
}

pub enum LaunchPermissionView {
    Group(Seq<char>),
    UserId(Seq<char>),
    OrganizationArn(Seq<char>),
    OrganizationalUnitArn(Seq<char>),
}

impl View for LaunchPermissionDef {
    type V = LaunchPermissionView;

    open spec fn view(&self) -> LaunchPermissionView {
        match self {
            LaunchPermissionDef::Group(name) => LaunchPermissionView::Group(name@),
            LaunchPermissionDef::UserId(id) => LaunchPermissionView::UserId(id@),
            LaunchPermissionDef::OrganizationArn(arn) => LaunchPermissionView::OrganizationArn(
                arn@,
            ),
            LaunchPermissionDef::OrganizationalUnitArn(arn) => {
                LaunchPermissionView::OrganizationalUnitArn(arn@)
            },
        }
    }
}

impl DeepView for LaunchPermissionDef {
    type V = LaunchPermissionView;

    open spec fn deep_view(&self) -> LaunchPermissionView {
        self@
    }
}

impl LaunchPermissionDef {
    /// Whether two permissions are of the same kind and for the same holder.
    pub fn same_as(&self, other: &Self) -> (same: bool)
        ensures
            same == (self@ == other@),
    {
        match (self, other) {
            (LaunchPermissionDef::Group(a), LaunchPermissionDef::Group(b)) => *a == *b,
            (LaunchPermissionDef::UserId(a), LaunchPermissionDef::UserId(b)) => *a == *b,
            (
                LaunchPermissionDef::OrganizationArn(a),
                LaunchPermissionDef::OrganizationArn(b),
            ) => *a == *b,
            (
                LaunchPermissionDef::OrganizationalUnitArn(a),
                LaunchPermissionDef::OrganizationalUnitArn(b),
            ) => *a == *b,
            _ => false,
        }
    }
}

/// What is recorded of a published image.
#[derive(Clone, Debug, PartialEq, Eq, Hash)]
pub struct Image {
    pub id: String,
    pub name: String,
    pub public: Option<bool>,
    pub launch_permissions: Option<Vec<LaunchPermissionDef>>,
}

pub struct ImageView {
    pub id: Seq<char>,
    pub name: Seq<char>,
    pub public: Option<bool>,
    pub launch_permissions: Option<Seq<LaunchPermissionView>>,
}

impl View for Image {
    type V = ImageView;

    open spec fn view(&self) -> ImageView {
        ImageView {
            id: self.id@,
            name: self.name@,
            public: self.public,
            launch_permissions: self.launch_permissions.deep_view(),
        }
    }
}

impl DeepView for Image {
    type V = ImageView;

    open spec fn deep_view(&self) -> ImageView {
        self@
    }
}

impl Image {
    pub fn new(
        id: &str,
        name: &str,
        public: Option<bool>,
        launch_permissions: Option<Vec<LaunchPermissionDef>>,
    ) -> (image: Self)
        ensures
            image@ == (ImageView {
                id: id@,
                name: name@,
                public,
                launch_permissions: launch_permissions.deep_view(),
            }),
    {
        Image { id: id.to_owned(), name: name.to_owned(), public, launch_permissions }
    }

    /// Whether two records say the same of an image.
    pub fn same_as(&self, other: &Self) -> (same: bool)
        ensures
            same == (self@ == other@),
    {
        if self.id != other.id || self.name != other.name || self.public != other.public {
            return false;
        }
        match (&self.launch_permissions, &other.launch_permissions) {
            (Some(a), Some(b)) => same_permissions(a, b),
            (None, None) => true,
            _ => false,
        }
    }
}

/// Whether two lists hold the same permissions in the same order.
fn same_permissions(a: &Vec<LaunchPermissionDef>, b: &Vec<LaunchPermissionDef>) -> (same: bool)
    ensures
        same == (a.deep_view() == b.deep_view()),
{
    if a.len() != b.len() {
        assert(a.deep_view().len() != b.deep_view().len());
        return false;
    }
    let mut i: usize = 0;
    while i < a.len()
        invariant
            i <= a@.len() == b@.len(),
            forall|j: int| 0 <= j < i ==> a.deep_view()[j] == b.deep_view()[j],
        decreases a@.len() - i,
    {
        if !a[i].same_as(&b[i]) {
            assert(a.deep_view()[i as int] != b.deep_view()[i as int]);
            return false;
        }
        i += 1;
    }
    assert(a.deep_view() =~= b.deep_view());
    true
}

/// What is published where: for each region, the image of each account. A single region can map
/// to multiple accounts when multiple roles are configured for it.
#[derive(Debug)]
pub struct RegionAccountImageMap {
    regions: AssocMap<String, AssocMap<AccountId, Image>>,
}

/// The images of one region, each by its view.
pub open spec fn images_view(accounts: Map<Seq<char>, Image>) -> Map<Seq<char>, ImageView> {
    accounts.map_values(|image: Image| image@)
}

impl View for RegionAccountImageMap {
    type V = Map<Seq<char>, Map<Seq<char>, ImageView>>;

    closed spec fn view(&self) -> Map<Seq<char>, Map<Seq<char>, ImageView>> {
        self.regions@.map_values(|accounts: AssocMap<AccountId, Image>| images_view(accounts@))
    }
}

impl DeepView for RegionAccountImageMap {
    type V = Map<Seq<char>, Map<Seq<char>, ImageView>>;

    open spec fn deep_view(&self) -> Map<Seq<char>, Map<Seq<char>, ImageView>> {
        self@
    }
}

/// The images of a region, none where the region is not in the map.
pub open spec fn images_in(
    amis: Map<Seq<char>, Map<Seq<char>, ImageView>>,
    region: Seq<char>,
) -> Map<Seq<char>, ImageView> {
    if amis.contains_key(region) {
        amis[region]
    } else {
        Map::empty()
    }
}

/// The map after an image has been recorded for an account in a region.
pub open spec fn placed(
    amis: Map<Seq<char>, Map<Seq<char>, ImageView>>,
    region: Seq<char>,
    account_id: Seq<char>,
    image: ImageView,
) -> Map<Seq<char>, Map<Seq<char>, ImageView>> {
    amis.insert(region, images_in(amis, region).insert(account_id, image))
}

/// Whether an account has an image in a region.
pub open spec fn has_image(
    amis: Map<Seq<char>, Map<Seq<char>, ImageView>>,
    region: Seq<char>,
    account_id: Seq<char>,
) -> bool {
    amis.contains_key(region) && amis[region].contains_key(account_id)
}

impl RegionAccountImageMap {
    pub fn new() -> (map: Self)
        ensures
            map@ == Map::<Seq<char>, Map<Seq<char>, ImageView>>::empty(),
    {
        let map = RegionAccountImageMap { regions: AssocMap::new() };
        assert(map@ =~= Map::<Seq<char>, Map<Seq<char>, ImageView>>::empty());
        map
    }

    /// Records the image of an account in a region, in place of the one recorded before.
    pub fn insert(&mut self, region: String, account_id: AccountId, image: Image)
        ensures
            final(self)@ == placed(old(self)@, region@, account_id@, image@),
    {
        let mut accounts = match self.regions.remove(&region) {
            Some(accounts) => accounts,
            None => AssocMap::new(),
        };
        let ghost images = accounts@;
        accounts.insert(account_id, image);
        proof {
            assert(images_view(images) =~= images_in(old(self)@, region@));
            assert(images_view(accounts@) =~= images_view(images).insert(account_id@, image@));
        }
        self.regions.insert(region, accounts);
        assert(self@ =~= placed(old(self)@, region@, account_id@, image@));
    }

    /// The images of a region.
    pub fn accounts(&self, region: &str) -> (accounts: Option<&AssocMap<AccountId, Image>>)
        ensures
            match accounts {
                Some(a) => self@.contains_key(region@) && images_view(a@) == self@[region@],
                None => !self@.contains_key(region@),
            },
    {
        self.regions.get(&region.to_owned())
    }

    /// The image of an account in a region.
    pub fn get(&self, region: &str, account_id: &str) -> (image: Option<&Image>)
        ensures
            match image {
                Some(i) => has_image(self@, region@, account_id@) && i@
                    == self@[region@][account_id@],
                None => !has_image(self@, region@, account_id@),
            },
    {
        match self.accounts(region) {
            Some(accounts) => accounts.get(&account_id.to_owned()),
            None => None,
        }
    }

    /// How many regions the map holds.
    pub fn len(&self) -> (n: usize)
        ensures
            n == self@.len(),
    {
        assert(self@.dom() =~= self.regions@.dom());
        self.regions.len()
    }

    /// Whether two maps hold the same images in the same places.
    pub fn same_as(&self, other: &Self) -> (same: bool)
        ensures
            same == (self@ == other@),
    {
        let same = regions_within(&self.regions, &other.regions) && regions_within(
            &other.regions,
            &self.regions,
        );
        proof {
            if same {
                assert(self@ =~= other@);
            } else if self@ == other@ {
                assert forall|k: Seq<char>|
                    self.regions@.contains_key(k) || other.regions@.contains_key(k) implies
                    self.regions@.contains_key(k) && other.regions@.contains_key(k)
                    && images_view(self.regions@[k]@) == images_view(other.regions@[k]@) by {
                    assert(self@.contains_key(k) && other@.contains_key(k));
                    assert(self@[k] == other@[k]);
                }
            }
        }
        same
    }
}

/// Whether each account of one region has the same image in another.
fn accounts_within(
    a: &AssocMap<AccountId, Image>,
    b: &AssocMap<AccountId, Image>,
) -> (within: bool)
    ensures
        within == (images_view(a@).submap_of(images_view(b@))),
{
    let entries = a.entries();
    let mut i: usize = 0;
    while i < entries.len()
        invariant
            i <= entries@.len(),
            keys_of(entries@).no_duplicates(),
            map_of(entries@) == a@,
            forall|j: int|
                0 <= j < i ==> b@.contains_key((#[trigger] entries@[j]).0@)
                    && b@[entries@[j].0@]@ == entries@[j].1@,
        decreases entries@.len() - i,
    {
        proof {
            lemma_map_of_entry(entries@, i as int);
        }
        let same = match b.get(&entries[i].0) {
            Some(image) => entries[i].1.same_as(image),
            None => false,
        };
        if !same {
            proof {
                let k = entries@[i as int].0@;
                assert(images_view(a@).dom().contains(k));
                assert(images_view(a@)[k] == entries@[i as int].1@);
                assert(!(images_view(b@).dom().contains(k) && images_view(b@)[k] == images_view(
                    a@,
                )[k]));
            }
            return false;
        }
        i += 1;
    }
    assert forall|k: Seq<char>| images_view(a@).contains_key(k) implies images_view(
        b@,
    ).contains_key(k) && images_view(a@)[k] == images_view(b@)[k] by {
        let j = keys_of(entries@).index_of(k);
        assert(keys_of(entries@)[j] == k);
        lemma_map_of_entry(entries@, j);
    }
    true
}

/// Whether each region of one map has the same images in another.
fn regions_within(
    a: &AssocMap<String, AssocMap<AccountId, Image>>,
    b: &AssocMap<String, AssocMap<AccountId, Image>>,
) -> (within: bool)
    ensures
        within == (forall|k: Seq<char>| #[trigger]
            a@.contains_key(k) ==> b@.contains_key(k) && images_view(a@[k]@) == images_view(
                b@[k]@,
            )),
{
    let entries = a.entries();
    let mut i: usize = 0;
    while i < entries.len()
        invariant
            i <= entries@.len(),
            keys_of(entries@).no_duplicates(),
            map_of(entries@) == a@,
            forall|j: int|
                0 <= j < i ==> b@.contains_key((#[trigger] entries@[j]).0@) && images_view(
                    b@[entries@[j].0@]@,
                ) == images_view(entries@[j].1@),
        decreases entries@.len() - i,
    {
        proof {
            lemma_map_of_entry(entries@, i as int);
        }
        let same = match b.get(&entries[i].0) {
            Some(accounts) => {
                let same = accounts_within(&entries[i].1, accounts) && accounts_within(
                    accounts,
                    &entries[i].1,
                );
                proof {
                    if same {
                        assert(images_view(entries@[i as int].1@) =~= images_view(accounts@));
                    }
                }
                same
            },
            None => false,
        };
        if !same {
            assert(a@.contains_key(entries@[i as int].0@));
            return false;
        }
        i += 1;
    }
    assert forall|k: Seq<char>| #[trigger] a@.contains_key(k) implies b@.contains_key(k)
        && images_view(a@[k]@) == images_view(b@[k]@) by {
        let j = keys_of(entries@).index_of(k);
        assert(keys_of(entries@)[j] == k);
        lemma_map_of_entry(entries@, j);
    }
    true
}

/// Regions with their accounts and images, in some order.
pub type ListingView = Seq<(Seq<char>, Seq<(Seq<char>, ImageView)>)>;

/// A listing, with the accounts of each region made into a map.
pub open spec fn listed_regions(listing: ListingView) -> Seq<
    (Seq<char>, Map<Seq<char>, ImageView>),
> {
    listing.map_values(|r: (Seq<char>, Seq<(Seq<char>, ImageView)>)| (r.0, collected(r.1)))
}

/// The map that a listing makes: of two entries for one region, or for one account in a region,
/// the later stays.
pub open spec fn listed(listing: ListingView) -> Map<Seq<char>, Map<Seq<char>, ImageView>> {
    collected(listed_regions(listing))
}

/// Whether a listing has each region once, and each account of a region once.
pub open spec fn each_listed_once(listing: ListingView) -> bool {
    &&& firsts(listing).no_duplicates()
    &&& forall|i: int| 0 <= i < listing.len() ==> firsts((#[trigger] listing[i]).1).no_duplicates()
}

/// The entries of a region stand for its images.
proof fn lemma_listed_images(entries: Vec<(AccountId, Image)>)
    requires
        keys_of(entries@).no_duplicates(),
    ensures
        collected(entries.deep_view()) == images_view(map_of(entries@)),
        firsts(entries.deep_view()).no_duplicates(),
{
    let pairs = entries.deep_view();
    lemma_collected(pairs);
    assert(firsts(pairs) =~= keys_of(entries@));
    assert forall|k: Seq<char>| keys_of(entries@).contains(k) implies collected(pairs)[k]
        == map_of(entries@)[k]@ by {
        let i = keys_of(entries@).index_of(k);
        lemma_map_of_entry(entries@, i);
        assert(pairs[i].0 == k);
    }
    assert(collected(pairs) =~= images_view(map_of(entries@)));
}

/// The entries of a map, each region taken apart, stand for the map.
proof fn lemma_listed(
    entries: Seq<(String, AssocMap<AccountId, Image>)>,
    list: Vec<(String, Vec<(AccountId, Image)>)>,
)
    requires
        keys_of(entries).no_duplicates(),
        list@.len() == entries.len(),
        forall|i: int|
            0 <= i < entries.len() ==> {
                &&& (#[trigger] list@[i]).0 == entries[i].0
                &&& collected(list@[i].1.deep_view()) == images_view(entries[i].1@)
                &&& firsts(list@[i].1.deep_view()).no_duplicates()
            },
    ensures
        each_listed_once(list.deep_view()),
        listed(list.deep_view()) == map_of(entries).map_values(
            |accounts: AssocMap<AccountId, Image>| images_view(accounts@),
        ),
{
    let pairs = listed_regions(list.deep_view());
    let keys = keys_of(entries);
    let whole = map_of(entries).map_values(
        |accounts: AssocMap<AccountId, Image>| images_view(accounts@),
    );
    assert forall|i: int| 0 <= i < keys.len() implies pairs[i] == (
        keys[i],
        images_view(entries[i].1@),
    ) && list.deep_view()[i].0 == keys[i] by {
        assert(list@[i].0 == entries[i].0);
    }
    assert(firsts(pairs) =~= keys);
    assert(firsts(list.deep_view()) =~= keys);
    lemma_collected(pairs);
    assert forall|k: Seq<char>| keys.contains(k) implies collected(pairs)[k] == whole[k] by {
        let i = keys.index_of(k);
        lemma_map_of_entry(entries, i);
        assert(pairs[i].0 == k);
    }
    assert(listed(list.deep_view()) =~= whole);
}

/// The images that a list of accounts makes.
fn images_from(list: Vec<(AccountId, Image)>) -> (accounts: AssocMap<AccountId, Image>)
    ensures
        images_view(accounts@) == collected(list.deep_view()),
{
    let ghost all = list.deep_view();
    let mut accounts: AssocMap<AccountId, Image> = AssocMap::new();
    assert(images_view(accounts@) =~= collected(all.take(0)));
    for entry in it: list.into_iter()
        invariant
            it.seq() == list@,
            all == list.deep_view(),
            images_view(accounts@) == collected(all.take(it.index() as int)),
    {
        let ghost i = it.index() as int;
        let ghost before = images_view(accounts@);
        proof {
            assert(all.take(i + 1).drop_last() =~= all.take(i));
            assert(all[i] == (entry.0@, entry.1@));
        }
        accounts.insert(entry.0, entry.1);
        assert(images_view(accounts@) =~= before.insert(entry.0@, entry.1@));
    }
    assert(all.take(all.len() as int) =~= all);
    accounts
}

impl RegionAccountImageMap {
    /// Takes the map apart into its regions, each once, and the accounts of each, each once, in
    /// no particular order.
    pub fn into_entries(self) -> (list: Vec<(String, Vec<(AccountId, Image)>)>)
        ensures
            listed(list.deep_view()) == self@,
            each_listed_once(list.deep_view()),
    {
        let entries = self.regions.into_entries();
        let ghost all = entries@;
        let mut list: Vec<(String, Vec<(AccountId, Image)>)> = Vec::new();
        for entry in it: entries.into_iter()
            invariant
                it.seq() == all,
                list@.len() == it.index(),
                forall|i: int|
                    0 <= i < list@.len() ==> {
                        &&& (#[trigger] list@[i]).0 == all[i].0
                        &&& collected(list@[i].1.deep_view()) == images_view(all[i].1@)
                        &&& firsts(list@[i].1.deep_view()).no_duplicates()
                    },
        {
            let accounts = entry.1.into_entries();
            proof {
                lemma_listed_images(accounts);
            }
            list.push((entry.0, accounts));
        }
        proof {
            lemma_listed(all, list);
        }
        list
    }

    /// The map that a list of regions with their accounts makes: of two entries for one region,
    /// or for one account in a region, the later stays.
    pub fn from_entries(list: Vec<(String, Vec<(AccountId, Image)>)>) -> (map: Self)
        ensures
            map@ == listed(list.deep_view()),
    {
        let ghost all = listed_regions(list.deep_view());
        let mut map = RegionAccountImageMap::new();
        assert(map@ =~= collected(all.take(0)));
        for entry in it: list.into_iter()
            invariant
                it.seq() == list@,
                all == listed_regions(list.deep_view()),
                map@ == collected(all.take(it.index() as int)),
        {
            let ghost i = it.index() as int;
            let ghost before = map@;
            let accounts = images_from(entry.1);
            proof {
                assert(all.take(i + 1).drop_last() =~= all.take(i));
                assert(all[i] == (entry.0@, images_view(accounts@)));
            }
            map.regions.insert(entry.0, accounts);
            assert(map@ =~= before.insert(entry.0@, images_view(accounts@)));
        }
        assert(all.take(all.len() as int) =~= all);
        map
    }
}

impl PartialEq for RegionAccountImageMap {
    fn eq(&self, other: &Self) -> (same: bool) {
        self.same_as(other)
    }
}

impl vstd::std_specs::cmp::PartialEqSpecImpl for RegionAccountImageMap {
    open spec fn obeys_eq_spec() -> bool {
        true
    }

    open spec fn eq_spec(&self, other: &Self) -> bool {
        self@ == other@
    }
}

} // verus!
