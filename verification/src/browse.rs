//! The ContentDirectory `Browse` action: from the children of an object to
//! a DIDL-Lite result.

use crate::media::{
    comes_before, entry_views, id_bytes, lemma_natural_sort_len, lemma_natural_sort_ordered,
    natural_sort, sort_entries, EntryView, FileType, MediaEntry,
};
use crate::order::{has_prefix, lemma_natural_order_total, natural_order, Order};
use crate::percent::{percent_encode, percent_encoded};
use vstd::prelude::*;
use vstd::string::StringExecFns;
use vstd::utf8::encode_utf8;

verus! {

/// Namespace of DIDL-Lite documents.
pub const XMLNS_DIDL: &'static str = "urn:schemas-upnp-org:metadata-1-0/DIDL-Lite/";

/// Namespace of the Dublin Core elements.
pub const XMLNS_DC: &'static str = "http://purl.org/dc/elements/1.1/";

/// Namespace of the UPnP elements.
pub const XMLNS_UPNP: &'static str = "urn:schemas-upnp-org:metadata-1-0/upnp/";

/// Protocol information of a video resource.
pub const VIDEO_PROTOCOL: &'static str = "http-get:*:video/x-matroska:*";

/// Protocol information of an image resource.
pub const IMAGE_PROTOCOL: &'static str = "http-get:*:image/jpeg:*";

/// Path under which videos are streamed.
pub const VIDEO_ROUTE: &'static str = "/video/";

/// Path under which files are served as they are.
pub const FILES_ROUTE: &'static str = "/files/";

/// A resource of an item: where to fetch it and what it is.
#[derive(Debug)]
pub struct Res {
    pub protocol_info: String,
    pub uri: String,
}

/// What a [`Res`] holds.
pub ghost struct ResView {
    pub protocol_info: Seq<char>,
    pub uri: Seq<char>,
}

impl View for Res {
    type V = ResView;

    open spec fn view(&self) -> ResView {
        ResView { protocol_info: self.protocol_info@, uri: self.uri@ }
    }
}

/// The views of a sequence of resources.
pub open spec fn res_views(res: Seq<Res>) -> Seq<ResView> {
    Seq::new(res.len(), |i: int| res[i]@)
}

/// The resource at `base`, `route` and the percent-encoded identifier.
pub open spec fn resource_at(
    base: Seq<char>,
    route: Seq<char>,
    id: Seq<char>,
    protocol_info: Seq<char>,
) -> ResView {
    ResView { protocol_info, uri: base + route + percent_encoded(encode_utf8(id)) }
}

/// Builds the resource of an identifier under a route of this server.
pub fn resource(base: &str, route: &str, id: &str, protocol_info: &str) -> (res: Res)
    ensures
        res@ == resource_at(base@, route@, id@, protocol_info@),
{
    let path = percent_encode(id.as_bytes());
    let mut uri = base.to_owned();
    uri.append(route);
    uri.append(path.as_str());
    Res { protocol_info: protocol_info.to_owned(), uri }
}

/// A directory, as a DIDL-Lite container.
#[derive(Debug)]
pub struct Container {
    pub parent_id: String,
    pub id: String,
    pub title: String,
    pub restricted: bool,
    pub class: String,
}

/// What a [`Container`] holds.
pub ghost struct ContainerView {
    pub parent_id: Seq<char>,
    pub id: Seq<char>,
    pub title: Seq<char>,
    pub restricted: bool,
    pub class: Seq<char>,
}

impl View for Container {
    type V = ContainerView;

    open spec fn view(&self) -> ContainerView {
        ContainerView {
            parent_id: self.parent_id@,
            id: self.id@,
            title: self.title@,
            restricted: self.restricted,
            class: self.class@,
        }
    }
}

/// The views of a sequence of containers.
pub open spec fn container_views(containers: Seq<Container>) -> Seq<ContainerView> {
    Seq::new(containers.len(), |i: int| containers[i]@)
}

/// A video, as a DIDL-Lite item with its resources.
#[derive(Debug)]
pub struct Item {
    pub parent_id: String,
    pub id: String,
    pub title: String,
    pub restricted: bool,
    pub class: String,
    pub res: Vec<Res>,
}

/// What an [`Item`] holds.
pub ghost struct ItemView {
    pub parent_id: Seq<char>,
    pub id: Seq<char>,
    pub title: Seq<char>,
    pub restricted: bool,
    pub class: Seq<char>,
    pub res: Seq<ResView>,
}

impl View for Item {
    type V = ItemView;

    open spec fn view(&self) -> ItemView {
        ItemView {
            parent_id: self.parent_id@,
            id: self.id@,
            title: self.title@,
            restricted: self.restricted,
            class: self.class@,
            res: res_views(self.res@),
        }
    }
}

/// The views of a sequence of items.
pub open spec fn item_views(items: Seq<Item>) -> Seq<ItemView> {
    Seq::new(items.len(), |i: int| items[i]@)
}

/// The entries of `s` that are directories.
pub open spec fn directories(s: Seq<EntryView>) -> Seq<EntryView> {
    s.filter(|e: EntryView| e.file_type == FileType::Directory)
}

/// The entries of `s` that are videos.
pub open spec fn videos(s: Seq<EntryView>) -> Seq<EntryView> {
    s.filter(|e: EntryView| e.file_type == FileType::Video)
}

/// The entries of `s` that support a video: images and subtitles.
pub open spec fn supports(s: Seq<EntryView>) -> Seq<EntryView> {
    s.filter(|e: EntryView| e.file_type == FileType::Image || e.file_type == FileType::Subtitles)
}

/// The children of an object, by kind. Entries of no known kind are left out.
pub struct Classified {
    pub containers: Vec<MediaEntry>,
    pub items: Vec<MediaEntry>,
    pub support: Vec<MediaEntry>,
}

/// Sorts the children of an object into directories, videos and supporting
/// files, each in the order in which they came.
pub fn classify(children: Vec<MediaEntry>) -> (parts: Classified)
    ensures
        entry_views(parts.containers@) == directories(entry_views(children@)),
        entry_views(parts.items@) == videos(entry_views(children@)),
        entry_views(parts.support@) == supports(entry_views(children@)),
{
    let ghost all = entry_views(children@);
    let mut containers: Vec<MediaEntry> = Vec::new();
    let mut items: Vec<MediaEntry> = Vec::new();
    let mut support: Vec<MediaEntry> = Vec::new();
    proof {
        reveal(Seq::filter);
        assert(all.take(0) =~= Seq::<EntryView>::empty());
    }
    for entry in it: children
        invariant
            all == entry_views(it.seq()),
            entry_views(containers@) == directories(all.take(it.index() as int)),
            entry_views(items@) == videos(all.take(it.index() as int)),
            entry_views(support@) == supports(all.take(it.index() as int)),
    {
        proof {
            reveal(Seq::filter);
            let k = it.index() as int;
            assert(all.take(k + 1).drop_last() =~= all.take(k));
            assert(all.take(k + 1).last() == entry@);
        }
        let ghost c0 = entry_views(containers@);
        let ghost i0 = entry_views(items@);
        let ghost s0 = entry_views(support@);
        match entry.file_type {
            FileType::Directory => {
                containers.push(entry);
                assert(entry_views(containers@) =~= c0.push(entry@));
            },
            FileType::Video => {
                items.push(entry);
                assert(entry_views(items@) =~= i0.push(entry@));
            },
            FileType::Image | FileType::Subtitles => {
                support.push(entry);
                assert(entry_views(support@) =~= s0.push(entry@));
            },
            FileType::Other => {},
        }
    }
    assert(all.take(all.len() as int) =~= all);
    Classified { containers, items, support }
}

/// Whether an entry belongs to a prefix: its identifier starts with it.
pub open spec fn belongs(e: EntryView, prefix: Seq<u8>) -> bool {
    prefix.is_prefix_of(id_bytes(e))
}

/// The index of the first entry from `from` on that belongs to `prefix`, or
/// the length of `support` if none does.
pub open spec fn run_first(support: Seq<EntryView>, prefix: Seq<u8>, from: int) -> int
    decreases support.len() - from,
{
    if 0 <= from < support.len() && !belongs(support[from], prefix) {
        run_first(support, prefix, from + 1)
    } else {
        from
    }
}

/// The index of the first entry from `from` on that does not belong to
/// `prefix`, or the length of `support` if all do.
pub open spec fn run_stop(support: Seq<EntryView>, prefix: Seq<u8>, from: int) -> int
    decreases support.len() - from,
{
    if 0 <= from < support.len() && belongs(support[from], prefix) {
        run_stop(support, prefix, from + 1)
    } else {
        from
    }
}

/// The entries from `s` up to `e` are the run of `prefix`: `s` is the least
/// index of an entry that belongs to the prefix, or the length of the list
/// if there is none, and `e` is the first index from `s` on of an entry that
/// does not belong to it, or the length if there is none.
pub open spec fn is_run(support: Seq<EntryView>, prefix: Seq<u8>, s: int, e: int) -> bool {
    &&& 0 <= s <= e <= support.len()
    &&& forall|n: int| 0 <= n < s ==> !belongs(#[trigger] support[n], prefix)
    &&& s < support.len() ==> belongs(support[s], prefix)
    &&& forall|n: int| s <= n < e ==> belongs(#[trigger] support[n], prefix)
    &&& e < support.len() ==> !belongs(support[e], prefix)
}

/// The supporting files of a video: the run of its prefix, in the order of
/// `support`.
pub open spec fn run_of(support: Seq<EntryView>, prefix: Seq<u8>) -> Seq<EntryView> {
    let s = run_first(support, prefix, 0);
    support.subrange(s, run_stop(support, prefix, s))
}

/// The images among `entries`, in order.
pub open spec fn images(entries: Seq<EntryView>) -> Seq<EntryView> {
    entries.filter(|e: EntryView| e.file_type == FileType::Image)
}

/// The resource under which an image is served.
pub open spec fn image_resource(base: Seq<char>, e: EntryView) -> ResView {
    resource_at(base, FILES_ROUTE@, e.id, IMAGE_PROTOCOL@)
}

/// The resources of the images among `entries`, one for each, in order.
/// Subtitles give no resource.
pub open spec fn image_resources(base: Seq<char>, entries: Seq<EntryView>) -> Seq<ResView> {
    Seq::new(images(entries).len(), |i: int| image_resource(base, images(entries)[i]))
}

/// What `run_first` and `run_stop` find is the run of the prefix.
pub proof fn lemma_run(support: Seq<EntryView>, prefix: Seq<u8>)
    ensures
        is_run(
            support,
            prefix,
            run_first(support, prefix, 0),
            run_stop(support, prefix, run_first(support, prefix, 0)),
        ),
{
    lemma_run_first(support, prefix, 0);
    lemma_run_stop(support, prefix, run_first(support, prefix, 0));
}

proof fn lemma_run_first(support: Seq<EntryView>, prefix: Seq<u8>, from: int)
    requires
        0 <= from <= support.len(),
    ensures
        from <= run_first(support, prefix, from) <= support.len(),
        forall|n: int|
            from <= n < run_first(support, prefix, from) ==> !belongs(#[trigger] support[n], prefix),
        run_first(support, prefix, from) < support.len() ==> belongs(
            support[run_first(support, prefix, from)],
            prefix,
        ),
    decreases support.len() - from,
{
    if from < support.len() && !belongs(support[from], prefix) {
        lemma_run_first(support, prefix, from + 1);
    }
}

proof fn lemma_run_stop(support: Seq<EntryView>, prefix: Seq<u8>, from: int)
    requires
        0 <= from <= support.len(),
    ensures
        from <= run_stop(support, prefix, from) <= support.len(),
        forall|n: int|
            from <= n < run_stop(support, prefix, from) ==> belongs(#[trigger] support[n], prefix),
        run_stop(support, prefix, from) < support.len() ==> !belongs(
            support[run_stop(support, prefix, from)],
            prefix,
        ),
    decreases support.len() - from,
{
    if from < support.len() && belongs(support[from], prefix) {
        lemma_run_stop(support, prefix, from + 1);
    }
}

/// A list has one run for a prefix, the one that `run_of` names.
pub proof fn lemma_run_is_unique(support: Seq<EntryView>, prefix: Seq<u8>, s: int, e: int)
    requires
        is_run(support, prefix, s, e),
    ensures
        s == run_first(support, prefix, 0),
        e == run_stop(support, prefix, s),
        run_of(support, prefix) == support.subrange(s, e),
{
    lemma_run(support, prefix);
    let s0 = run_first(support, prefix, 0);
    let e0 = run_stop(support, prefix, s0);
    if s0 < s {
        assert(!belongs(support[s0], prefix));
    } else if s < s0 {
        assert(belongs(support[s], prefix));
    }
    if e0 < e {
        assert(belongs(support[e0], prefix));
    } else if e < e0 {
        assert(belongs(support[e], prefix));
    }
}

/// Finds the first of the supporting files whose identifier starts with
/// `key`: its index, or the length of `support` if there is none.
pub fn search(support: &Vec<MediaEntry>, key: &[u8]) -> (start: usize)
    ensures
        start == run_first(entry_views(support@), key@, 0),
        start <= support@.len(),
        forall|n: int| 0 <= n < start ==> !belongs(#[trigger] entry_views(support@)[n], key@),
        start < support@.len() ==> belongs(entry_views(support@)[start as int], key@),
{
    let mut start: usize = 0;
    while start < support.len() && !has_prefix(support[start].id.as_str().as_bytes(), key)
        invariant
            start <= support@.len(),
            run_first(entry_views(support@), key@, 0) == run_first(
                entry_views(support@),
                key@,
                start as int,
            ),
            forall|n: int| 0 <= n < start ==> !belongs(#[trigger] entry_views(support@)[n], key@),
        decreases support@.len() - start,
    {
        start += 1;
    }
    start
}

/// The container that stands for a directory.
pub open spec fn container_of(e: EntryView) -> ContainerView {
    ContainerView {
        parent_id: e.parent_id,
        id: e.id,
        title: e.title,
        restricted: true,
        class: e.dlna_class,
    }
}

/// The item that stands for a video: its own resource first, then those of
/// the images among its supporting files. These are the files of the first
/// run of entries of `support` whose identifier starts with the prefix of
/// the video.
pub open spec fn item_of(base: Seq<char>, e: EntryView, support: Seq<EntryView>) -> ItemView {
    let prefix = encode_utf8(e.prefix);
    ItemView {
        parent_id: e.parent_id,
        id: e.id,
        title: e.title,
        restricted: true,
        class: e.dlna_class,
        res: seq![resource_at(base, VIDEO_ROUTE@, e.id, VIDEO_PROTOCOL@)] + image_resources(
            base,
            run_of(support, prefix),
        ),
    }
}

/// Builds the container for a directory.
pub fn make_container(entry: &MediaEntry) -> (container: Container)
    ensures
        container@ == container_of(entry@),
{
    Container {
        parent_id: entry.parent_id.clone(),
        id: entry.id.clone(),
        title: entry.title.clone(),
        restricted: true,
        class: entry.dlna_class.clone(),
    }
}

/// Builds the item for a video, with the resources of the supporting files
/// that belong to it.
pub fn make_item(base: &str, entry: &MediaEntry, support: &Vec<MediaEntry>) -> (item: Item)
    ensures
        item@ == item_of(base@, entry@, entry_views(support@)),
{
    let ghost views = entry_views(support@);
    let ghost prefix = encode_utf8(entry.prefix@);
    let video = resource(base, VIDEO_ROUTE, entry.id.as_str(), VIDEO_PROTOCOL);
    let ghost first = video@;
    let mut res: Vec<Res> = Vec::new();
    res.push(video);
    let start = search(support, entry.prefix.as_str().as_bytes());
    let mut k: usize = start;
    proof {
        reveal(Seq::filter);
        assert(views.subrange(start as int, start as int) =~= Seq::<EntryView>::empty());
        assert(res_views(res@) =~= seq![first] + image_resources(
            base@,
            views.subrange(start as int, start as int),
        ));
    }
    while k < support.len() && has_prefix(
        support[k].id.as_str().as_bytes(),
        entry.prefix.as_str().as_bytes(),
    )
        invariant
            start <= k <= support@.len(),
            views == entry_views(support@),
            prefix == encode_utf8(entry.prefix@),
            run_stop(views, prefix, start as int) == run_stop(views, prefix, k as int),
            res_views(res@) == seq![first] + image_resources(
                base@,
                views.subrange(start as int, k as int),
            ),
        decreases support@.len() - k,
    {
        let ghost before = res_views(res@);
        let ghost seen = views.subrange(start as int, k as int);
        let ghost next = views.subrange(start as int, k + 1);
        proof {
            reveal(Seq::filter);
            assert(next.drop_last() =~= seen);
            assert(next.last() == views[k as int]);
        }
        match support[k].file_type {
            FileType::Image => {
                let image = resource(base, FILES_ROUTE, support[k].id.as_str(), IMAGE_PROTOCOL);
                res.push(image);
                assert(images(next) =~= images(seen).push(views[k as int]));
                assert(res_views(res@) =~= before + seq![image_resource(base@, views[k as int])]);
                assert(image_resources(base@, next) =~= image_resources(base@, seen) + seq![
                    image_resource(base@, views[k as int]),
                ]);
            },
            _ => {
                assert(images(next) =~= images(seen));
            },
        }
        k += 1;
    }
    Item {
        parent_id: entry.parent_id.clone(),
        id: entry.id.clone(),
        title: entry.title.clone(),
        restricted: true,
        class: entry.dlna_class.clone(),
        res,
    }
}

/// The containers of a `Browse` result: the directories among the children,
/// in natural order.
pub open spec fn containers_for(children: Seq<EntryView>) -> Seq<ContainerView> {
    let sorted = natural_sort(directories(children));
    Seq::new(sorted.len(), |i: int| container_of(sorted[i]))
}

/// The items of a `Browse` result: the videos among the children, in natural
/// order, each with the resources of the supporting files that belong to it.
pub open spec fn items_for(base: Seq<char>, children: Seq<EntryView>) -> Seq<ItemView> {
    let sorted = natural_sort(videos(children));
    let support = natural_sort(supports(children));
    Seq::new(sorted.len(), |i: int| item_of(base, sorted[i], support))
}

/// A DIDL-Lite document.
#[derive(Debug)]
pub struct DidlLite {
    pub xmlns: &'static str,
    pub xmlns_dc: &'static str,
    pub xmlns_upnp: &'static str,
    pub containers: Vec<Container>,
    pub items: Vec<Item>,
}

/// The answer to a `Browse` request.
#[derive(Debug)]
pub struct BrowseResponse {
    pub number_returned: u32,
    pub total_matches: u32,
    pub update_id: u32,
    pub result: DidlLite,
}

/// What a [`BrowseResponse`] holds.
pub ghost struct BrowseView {
    pub number_returned: u32,
    pub total_matches: u32,
    pub update_id: u32,
    pub xmlns: Seq<char>,
    pub xmlns_dc: Seq<char>,
    pub xmlns_upnp: Seq<char>,
    pub containers: Seq<ContainerView>,
    pub items: Seq<ItemView>,
}

impl View for BrowseResponse {
    type V = BrowseView;

    open spec fn view(&self) -> BrowseView {
        BrowseView {
            number_returned: self.number_returned,
            total_matches: self.total_matches,
            update_id: self.update_id,
            xmlns: self.result.xmlns@,
            xmlns_dc: self.result.xmlns_dc@,
            xmlns_upnp: self.result.xmlns_upnp@,
            containers: container_views(self.result.containers@),
            items: item_views(self.result.items@),
        }
    }
}

/// The answer to a `Browse` request for an object with the given children,
/// by a server whose address is `base`.
///
/// Directories become containers and videos become items, each list in the
/// natural order of the identifiers; images and subtitles are attached to
/// the videos they belong to; everything else is left out. The counts are
/// fixed: a request is never answered in pages.
pub open spec fn browse_result(base: Seq<char>, children: Seq<EntryView>) -> BrowseView {
    BrowseView {
        number_returned: 1,
        total_matches: 1,
        update_id: 1,
        xmlns: XMLNS_DIDL@,
        xmlns_dc: XMLNS_DC@,
        xmlns_upnp: XMLNS_UPNP@,
        containers: containers_for(children),
        items: items_for(base, children),
    }
}

/// Answers a `Browse` request for an object with the given children. See
/// [`browse_result`].
pub fn browse(base: &str, children: Vec<MediaEntry>) -> (response: BrowseResponse)
    ensures
        response@ == browse_result(base@, entry_views(children@)),
{
    let ghost all = entry_views(children@);
    let mut parts = classify(children);
    sort_entries(&mut parts.containers);
    sort_entries(&mut parts.items);
    sort_entries(&mut parts.support);
    let ghost sorted_containers = natural_sort(directories(all));
    let ghost sorted_items = natural_sort(videos(all));
    let ghost sorted_support = natural_sort(supports(all));

    let mut containers: Vec<Container> = Vec::new();
    let mut i: usize = 0;
    while i < parts.containers.len()
        invariant
            i <= parts.containers@.len(),
            entry_views(parts.containers@) == sorted_containers,
            containers@.len() == i,
            forall|n: int| 0 <= n < i ==> (#[trigger] containers@[n])@ == container_of(
                sorted_containers[n],
            ),
        decreases parts.containers@.len() - i,
    {
        let container = make_container(&parts.containers[i]);
        containers.push(container);
        i += 1;
    }
    let mut items: Vec<Item> = Vec::new();
    let mut j: usize = 0;
    while j < parts.items.len()
        invariant
            j <= parts.items@.len(),
            entry_views(parts.items@) == sorted_items,
            entry_views(parts.support@) == sorted_support,
            items@.len() == j,
            forall|n: int| 0 <= n < j ==> (#[trigger] items@[n])@ == item_of(
                base@,
                sorted_items[n],
                sorted_support,
            ),
        decreases parts.items@.len() - j,
    {
        let item = make_item(base, &parts.items[j], &parts.support);
        items.push(item);
        j += 1;
    }
    assert(container_views(containers@) =~= containers_for(all));
    assert(item_views(items@) =~= items_for(base@, all));
    BrowseResponse {
        number_returned: 1,
        total_matches: 1,
        update_id: 1,
        result: DidlLite {
            xmlns: XMLNS_DIDL,
            xmlns_dc: XMLNS_DC,
            xmlns_upnp: XMLNS_UPNP,
            containers,
            items,
        },
    }
}

/// A video is given the resources of the images among its supporting files,
/// each once and in the order of the list, after its own resource. Its
/// supporting files are the run of its prefix: the entries from the first
/// one whose identifier starts with the prefix up to the next one whose
/// identifier does not.
pub proof fn lemma_attached_complete(base: Seq<char>, e: EntryView, support: Seq<EntryView>)
    ensures
        ({
            let prefix = encode_utf8(e.prefix);
            let s = run_first(support, prefix, 0);
            let t = run_stop(support, prefix, s);
            let run = support.subrange(s, t);
            let res = item_of(base, e, support).res;
            &&& is_run(support, prefix, s, t)
            &&& res.len() == 1 + images(run).len()
            &&& res[0] == resource_at(base, VIDEO_ROUTE@, e.id, VIDEO_PROTOCOL@)
            &&& forall|i: int|
                0 <= i < images(run).len() ==> #[trigger] res[1 + i] == image_resource(
                    base,
                    images(run)[i],
                )
            &&& forall|i: int|
                0 <= i < images(run).len() ==> (#[trigger] images(run)[i]).file_type
                    == FileType::Image && belongs(images(run)[i], prefix) && support.contains(
                    images(run)[i],
                )
            &&& forall|n: int|
                s <= n < t && (#[trigger] support[n]).file_type == FileType::Image
                    ==> images(run).contains(support[n])
        }),
{
    broadcast use vstd::seq_lib::group_filter_ensures;

    let prefix = encode_utf8(e.prefix);
    let s = run_first(support, prefix, 0);
    let t = run_stop(support, prefix, s);
    let run = support.subrange(s, t);
    let pred = |e: EntryView| e.file_type == FileType::Image;
    lemma_run(support, prefix);
    assert forall|i: int| 0 <= i < images(run).len() implies (#[trigger] images(run)[i]).file_type
        == FileType::Image && belongs(images(run)[i], prefix) && support.contains(
        images(run)[i],
    ) by {
        let x = images(run)[i];
        run.lemma_filter_pred(pred, i);
        assert(run.filter(pred).contains(x));
        run.lemma_filter_contains_rev(pred, x);
        let n = choose|n: int| 0 <= n < run.len() && run[n] == x;
        assert(support[s + n] == x);
    }
    assert forall|n: int|
        s <= n < t && (#[trigger] support[n]).file_type == FileType::Image implies images(
        run,
    ).contains(support[n]) by {
        assert(run[n - s] == support[n]);
        run.lemma_filter_contains(pred, n - s);
    }
}

/// What a `Browse` result lists: as many containers as there are
/// directories among the children and as many items as there are videos,
/// each list in the natural order of the identifiers.
pub proof fn lemma_browse_lists(base: Seq<char>, children: Seq<EntryView>, i: int, j: int)
    requires
        0 <= i < j,
    ensures
        ({
            let result = browse_result(base, children);
            &&& result.containers.len() == directories(children).len()
            &&& result.items.len() == videos(children).len()
            &&& j < result.containers.len() ==> natural_order(
                encode_utf8(result.containers[i].id),
                encode_utf8(result.containers[j].id),
            ) != Order::Greater
            &&& j < result.items.len() ==> natural_order(
                encode_utf8(result.items[i].id),
                encode_utf8(result.items[j].id),
            ) != Order::Greater
        }),
{
    let dirs = natural_sort(directories(children));
    let vids = natural_sort(videos(children));
    lemma_natural_sort_len(directories(children));
    lemma_natural_sort_len(videos(children));
    lemma_natural_sort_ordered(directories(children));
    lemma_natural_sort_ordered(videos(children));
    if j < dirs.len() {
        assert(!comes_before(dirs[j], dirs[i]));
        lemma_natural_order_total(id_bytes(dirs[i]), id_bytes(dirs[j]), id_bytes(dirs[i]));
    }
    if j < vids.len() {
        assert(!comes_before(vids[j], vids[i]));
        lemma_natural_order_total(id_bytes(vids[i]), id_bytes(vids[j]), id_bytes(vids[i]));
    }
}

} // verus!
