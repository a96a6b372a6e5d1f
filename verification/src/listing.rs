//! Directory listings: what a server reports, and what of it is shown in which order.
use vstd::prelude::*;

use crate::order::{arrange, sort_order, SortKey, SortKeyView};
use crate::text::{chars_of, starts_with};

verus! {

/// A directory entry as the server reports it.
pub struct RemoteEntry {
    pub name: String,
    pub size: Option<u64>,
    pub permissions: Option<u32>,
}

/// A `RemoteEntry` in specifications.
pub struct RemoteEntryView {
    pub name: Seq<char>,
    pub size: Option<u64>,
    pub permissions: Option<u32>,
}

impl View for RemoteEntry {
    type V = RemoteEntryView;

    open spec fn view(&self) -> RemoteEntryView {
        RemoteEntryView { name: self.name@, size: self.size, permissions: self.permissions }
    }
}

/// A single entry in a directory listing.
pub struct FileEntry {
    pub name: String,
    pub is_dir: bool,
    pub size: u64,
    /// Human-readable permissions string, e.g. `rwxr-xr-x`.
    pub permissions: String,
}

/// A `FileEntry` in specifications.
pub struct FileEntryView {
    pub name: Seq<char>,
    pub is_dir: bool,
    pub size: u64,
    pub permissions: Seq<char>,
}

impl View for FileEntry {
    type V = FileEntryView;

    open spec fn view(&self) -> FileEntryView {
        FileEntryView {
            name: self.name@,
            is_dir: self.is_dir,
            size: self.size,
            permissions: self.permissions@,
        }
    }
}

/// The entries as specifications see them.
pub open spec fn entry_views(entries: Seq<FileEntry>) -> Seq<FileEntryView> {
    entries.map_values(|entry: FileEntry| entry@)
}

/// The reported entries as specifications see them.
pub open spec fn remote_views(remotes: Seq<RemoteEntry>) -> Seq<RemoteEntryView> {
    remotes.map_values(|remote: RemoteEntry| remote@)
}

/// Whether bit `bit` of `mode` is set.
pub open spec fn has_bit(mode: u32, bit: u32) -> bool {
    (mode >> bit) & 1 == 1
}

/// The permission letter for the bit that many places below the highest of the nine.
pub open spec fn permission_letter(place: int) -> char {
    if place % 3 == 0 {
        'r'
    } else if place % 3 == 1 {
        'w'
    } else {
        'x'
    }
}

/// The nine permission bits of `mode`, highest first, each as its letter or a dash.
pub open spec fn permission_letters(mode: u32) -> Seq<char> {
    Seq::new(
        9,
        |place: int|
            if has_bit(mode, (8 - place) as u32) {
                permission_letter(place)
            } else {
                '-'
            },
    )
}

/// Whether the file type bits of `mode` say directory.
pub open spec fn is_dir_mode(mode: u32) -> bool {
    mode & 0xF000 == 0x4000
}

/// Convert a Unix permission mode (e.g. `0o755`) to a human-readable string
/// like `rwxr-xr-x`. Only the lower 9 bits (user/group/other) are used.
pub fn permissions_string(mode: u32) -> (s: String)
    ensures
        s@ == permission_letters(mode),
{
    let mut s = String::new();
    let mut group: u32 = 3;
    while group > 0
        invariant
            group <= 3,
            s@ == permission_letters(mode).take(9 - 3 * group),
        decreases group,
    {
        group = group - 1;
        let shift: u32 = group * 3;
        let bits: u32 = (mode >> shift) & 7;
        proof {
            let (write, read) = ((shift + 1) as u32, (shift + 2) as u32);
            assert(((mode >> shift) & 7) & 4 != 0 <==> (mode >> read) & 1 == 1) by (bit_vector)
                requires
                    shift <= 6,
                    read == shift + 2,
            ;
            assert(((mode >> shift) & 7) & 2 != 0 <==> (mode >> write) & 1 == 1) by (bit_vector)
                requires
                    shift <= 6,
                    write == shift + 1,
            ;
            assert(((mode >> shift) & 7) & 1 != 0 <==> (mode >> shift) & 1 == 1) by (bit_vector);
        }
        s.push(if bits & 4 != 0 { 'r' } else { '-' });
        s.push(if bits & 2 != 0 { 'w' } else { '-' });
        s.push(if bits & 1 != 0 { 'x' } else { '-' });
        assert(s@ =~= permission_letters(mode).take(9 - 3 * group));
    }
    assert(permission_letters(mode).take(9) =~= permission_letters(mode));
    s
}

/// Calls `FileAttributes::file_type` and `FileType::is_dir` of `russh_sftp` on attributes that
/// hold these permission bits and nothing else: the entry is a directory if and only if the file
/// type bits are those of one. Missing permission bits count as zero.
#[verifier::external_body]
fn reports_directory(permissions: Option<u32>) -> (is_dir: bool)
    ensures
        is_dir == is_dir_mode(permissions.unwrap_or(0)),
{
    let attributes = russh_sftp::protocol::FileAttributes {
        permissions,
        ..russh_sftp::protocol::FileAttributes::empty()
    };
    attributes.file_type().is_dir()
}

/// Whether the entry is neither the directory itself nor its parent.
pub open spec fn is_proper(name: Seq<char>) -> bool {
    name != seq!['.'] && name != seq!['.', '.']
}

/// The shown form of a reported entry.
pub open spec fn shown(remote: RemoteEntryView) -> FileEntryView {
    FileEntryView {
        name: remote.name,
        is_dir: is_dir_mode(remote.permissions.unwrap_or(0)),
        size: remote.size.unwrap_or(0),
        permissions: permission_letters(remote.permissions.unwrap_or(0)),
    }
}

/// Whether the entry is neither the directory itself nor its parent.
pub fn is_proper_name(name: &str) -> (proper: bool)
    ensures
        proper == is_proper(name@),
{
    let chars = chars_of(name);
    let len: usize = chars.len();
    let proper = !(len == 1 && chars[0] == '.') && !(len == 2 && chars[0] == '.' && chars[1]
        == '.');
    proof {
        if len == 1 && chars@[0] == '.' {
            assert(name@ =~= seq!['.']);
        }
        if len == 2 && chars@[0] == '.' && chars@[1] == '.' {
            assert(name@ =~= seq!['.', '.']);
        }
    }
    proper
}

/// The shown form of a reported entry.
pub fn shown_entry(remote: RemoteEntry) -> (entry: FileEntry)
    ensures
        entry@ == shown(remote@),
{
    FileEntry {
        name: remote.name,
        is_dir: reports_directory(remote.permissions),
        size: remote.size.unwrap_or(0),
        permissions: permissions_string(remote.permissions.unwrap_or(0)),
    }
}

/// Accepts the entries that a listing shows: all but the directory itself and its parent.
pub open spec fn listable() -> spec_fn(RemoteEntryView) -> bool {
    |remote: RemoteEntryView| is_proper(remote.name)
}

/// Accepts the entries to suggest for a prefix: of those a listing shows, the ones whose name
/// begins with the prefix, both in lowercase.
pub open spec fn suggestible(lower_prefix: Seq<char>) -> spec_fn(RemoteEntryView) -> bool {
    |remote: RemoteEntryView|
        is_proper(remote.name) && lower_prefix.is_prefix_of(crate::text::lowercase(remote.name))
}

/// The shown forms of the reported entries.
pub open spec fn all_shown(remotes: Seq<RemoteEntryView>) -> Seq<FileEntryView> {
    remotes.map_values(|remote: RemoteEntryView| shown(remote))
}

/// What an entry is ordered by.
pub open spec fn sort_key(entry: FileEntryView) -> SortKeyView {
    SortKeyView { is_dir: entry.is_dir, name: crate::text::lowercase(entry.name) }
}

/// What the entries are ordered by.
pub open spec fn sort_keys(entries: Seq<FileEntryView>) -> Seq<SortKeyView> {
    entries.map_values(|entry: FileEntryView| sort_key(entry))
}

/// The entries sorted: directories first, then alphabetically by lowercase name, and entries
/// that this does not tell apart as they came.
pub open spec fn sorted(entries: Seq<FileEntryView>) -> Seq<FileEntryView> {
    crate::order::listing_order(sort_keys(entries)).map_values(|i: int| entries[i])
}

/// The listing of a directory whose reported entries are `remotes`.
pub open spec fn listing(remotes: Seq<RemoteEntryView>) -> Seq<FileEntryView> {
    sorted(all_shown(remotes.filter(listable())))
}

/// The suggestions for `prefix` in a directory whose reported entries are `remotes`.
pub open spec fn suggestions(remotes: Seq<RemoteEntryView>, prefix: Seq<char>) -> Seq<
    FileEntryView,
> {
    sorted(all_shown(remotes.filter(suggestible(crate::text::lowercase(prefix)))))
}

/// Whether all these names are ASCII.
pub open spec fn all_ascii(names: Seq<Seq<char>>) -> bool {
    forall|k: int| 0 <= k < names.len() ==> #[trigger] vstd::utf8::is_ascii_chars(names[k])
}

/// The names of the entries.
pub open spec fn entry_names(entries: Seq<FileEntryView>) -> Seq<Seq<char>> {
    entries.map_values(|entry: FileEntryView| entry.name)
}

/// The names of the reported entries.
pub open spec fn remote_names(remotes: Seq<RemoteEntryView>) -> Seq<Seq<char>> {
    remotes.map_values(|remote: RemoteEntryView| remote.name)
}

/// `sort_keys` of entries with ASCII names.
pub open spec fn ascii_sort_keys(entries: Seq<FileEntryView>) -> Seq<SortKeyView> {
    entries.map_values(
        |entry: FileEntryView|
            SortKeyView { is_dir: entry.is_dir, name: crate::text::ascii_lowercase(entry.name) },
    )
}

/// `sorted` of entries with ASCII names.
pub open spec fn ascii_sorted(entries: Seq<FileEntryView>) -> Seq<FileEntryView> {
    crate::order::listing_order(ascii_sort_keys(entries)).map_values(|i: int| entries[i])
}

/// `suggestible` for entries with ASCII names.
pub open spec fn ascii_suggestible(lower_prefix: Seq<char>) -> spec_fn(RemoteEntryView) -> bool {
    |remote: RemoteEntryView|
        is_proper(remote.name) && lower_prefix.is_prefix_of(
            crate::text::ascii_lowercase(remote.name),
        )
}

/// `listing` where all names are ASCII.
pub open spec fn ascii_listing(remotes: Seq<RemoteEntryView>) -> Seq<FileEntryView> {
    ascii_sorted(all_shown(remotes.filter(listable())))
}

/// `suggestions` where the prefix and all names are ASCII.
pub open spec fn ascii_suggestions(remotes: Seq<RemoteEntryView>, prefix: Seq<char>) -> Seq<
    FileEntryView,
> {
    ascii_sorted(
        all_shown(remotes.filter(ascii_suggestible(crate::text::ascii_lowercase(prefix)))),
    )
}

/// What an entry with this lowercase name is ordered by.
pub fn sort_key_of(entry: &FileEntry, lower_name: &str) -> (key: SortKey)
    ensures
        key@ == (SortKeyView { is_dir: entry.is_dir, name: lower_name@ }),
{
    SortKey { is_dir: entry.is_dir, name: chars_of(lower_name) }
}

/// Sorts the entries: directories first, then alphabetically by lowercase name.
pub fn sort_entries(entries: Vec<FileEntry>) -> (listed: Vec<FileEntry>)
    ensures
        entry_views(listed@) == sorted(entry_views(entries@)),
        all_ascii(entry_names(entry_views(entries@))) ==> entry_views(listed@) == ascii_sorted(
            entry_views(entries@),
        ),
{
    let ghost all = entry_views(entries@);
    let mut keys: Vec<SortKey> = Vec::new();
    let mut i: usize = 0;
    while i < entries.len()
        invariant
            i <= entries@.len(),
            all == entry_views(entries@),
            crate::order::key_views(keys@) == sort_keys(all).take(i as int),
            all_ascii(entry_names(all)) ==> sort_keys(all).take(i as int) == ascii_sort_keys(
                all,
            ).take(i as int),
        decreases entries.len() - i,
    {
        let lower = entries[i].name.to_lowercase();
        assert(all_ascii(entry_names(all)) ==> vstd::utf8::is_ascii_chars(
            entry_names(all)[i as int],
        ));
        let key = sort_key_of(&entries[i], lower.as_str());
        let ghost done = crate::order::key_views(keys@);
        assert(key@ == sort_keys(all)[i as int]);
        keys.push(key);
        assert(crate::order::key_views(keys@) =~= done.push(key@));
        assert(sort_keys(all).take(i + 1) =~= sort_keys(all).take(i as int).push(key@));
        assert(all_ascii(entry_names(all)) ==> ascii_sort_keys(all).take(i + 1)
            =~= ascii_sort_keys(all).take(i as int).push(key@));
        i = i + 1;
    }
    assert(sort_keys(all).take(i as int) =~= sort_keys(all));
    assert(ascii_sort_keys(all).take(i as int) =~= ascii_sort_keys(all));
    assert(keys@.len() == crate::order::key_views(keys@).len());
    let order = sort_order(&keys);
    let listed = arrange(entries, &order);
    proof {
        let ranked = crate::order::indices(order@);
        assert forall|k: int| 0 <= k < all.len() implies entry_views(listed@)[k]
            == all[#[trigger] ranked[k]] by {
            assert(0 <= ranked[k] < all.len());
            assert(listed@[k]@ == entry_views(listed@)[k]);
        }
        assert(entry_views(listed@) =~= sorted(all));
    }
    listed
}

/// The next reported entry adds its shown form to those of the accepted ones before it, if it is
/// accepted too.
proof fn lemma_shown_next(
    remotes: Seq<RemoteEntryView>,
    pred: spec_fn(RemoteEntryView) -> bool,
    i: int,
)
    requires
        0 <= i < remotes.len(),
    ensures
        all_shown(remotes.take(i + 1).filter(pred)) == if pred(remotes[i]) {
            all_shown(remotes.take(i).filter(pred)).push(shown(remotes[i]))
        } else {
            all_shown(remotes.take(i).filter(pred))
        },
{
    reveal(Seq::filter);
    let done = remotes.take(i).filter(pred);
    assert(remotes.take(i + 1).drop_last() =~= remotes.take(i));
    assert(all_shown(done.push(remotes[i])) =~= all_shown(done).push(shown(remotes[i])));
}

/// Of no reported entries nothing is shown, and all of them are all.
proof fn lemma_shown_ends(remotes: Seq<RemoteEntryView>, pred: spec_fn(RemoteEntryView) -> bool)
    ensures
        all_shown(remotes.take(0).filter(pred)) == Seq::<FileEntryView>::empty(),
        remotes.take(remotes.len() as int) == remotes,
{
    reveal(Seq::filter);
    assert(all_shown(remotes.take(0).filter(pred)) =~= Seq::empty());
    assert(remotes.take(remotes.len() as int) =~= remotes);
}

/// Adds the shown form of a reported entry.
fn push_shown(entries: &mut Vec<FileEntry>, remote: RemoteEntry)
    ensures
        entry_views(final(entries)@) == entry_views(old(entries)@).push(shown(remote@)),
{
    entries.push(shown_entry(remote));
    assert(entry_views(entries@) =~= entry_views(old(entries)@).push(shown(remote@)));
}

/// The shown forms of those reported entries that are not the directory itself or its parent.
pub fn listable_entries(remotes: Vec<RemoteEntry>) -> (entries: Vec<FileEntry>)
    ensures
        entry_views(entries@) == all_shown(remote_views(remotes@).filter(listable())),
{
    let ghost all = remote_views(remotes@);
    let mut entries: Vec<FileEntry> = Vec::new();
    proof {
        lemma_shown_ends(all, listable());
    }
    for remote in it: remotes
        invariant
            remote_views(it.seq()) == all,
            entry_views(entries@) == all_shown(all.take(it.index()).filter(listable())),
    {
        proof {
            assert(all[it.index()] == remote@);
            lemma_shown_next(all, listable(), it.index());
        }
        if is_proper_name(remote.name.as_str()) {
            push_shown(&mut entries, remote);
        }
    }
    entries
}

/// The shown forms of the reported entries to suggest for a prefix in lowercase.
pub fn suggestible_entries(remotes: Vec<RemoteEntry>, lower_prefix: &str) -> (entries: Vec<
    FileEntry,
>)
    ensures
        entry_views(entries@) == all_shown(
            remote_views(remotes@).filter(suggestible(lower_prefix@)),
        ),
        all_ascii(remote_names(remote_views(remotes@))) ==> entry_views(entries@) == all_shown(
            remote_views(remotes@).filter(ascii_suggestible(lower_prefix@)),
        ),
{
    let ghost all = remote_views(remotes@);
    let ghost ascii = all_ascii(remote_names(all));
    let mut entries: Vec<FileEntry> = Vec::new();
    proof {
        lemma_shown_ends(all, suggestible(lower_prefix@));
        lemma_shown_ends(all, ascii_suggestible(lower_prefix@));
    }
    for remote in it: remotes
        invariant
            remote_views(it.seq()) == all,
            ascii == all_ascii(remote_names(all)),
            entry_views(entries@) == all_shown(
                all.take(it.index()).filter(suggestible(lower_prefix@)),
            ),
            ascii ==> entry_views(entries@) == all_shown(
                all.take(it.index()).filter(ascii_suggestible(lower_prefix@)),
            ),
    {
        proof {
            assert(all[it.index()] == remote@);
            assert(ascii ==> vstd::utf8::is_ascii_chars(remote_names(all)[it.index()]));
            lemma_shown_next(all, suggestible(lower_prefix@), it.index());
            lemma_shown_next(all, ascii_suggestible(lower_prefix@), it.index());
        }
        if is_proper_name(remote.name.as_str()) && starts_with(
            remote.name.to_lowercase().as_str(),
            lower_prefix,
        ) {
            push_shown(&mut entries, remote);
        }
    }
    entries
}

/// A sorted listing shows directories before other entries, and each group alphabetically by
/// lowercase name.
pub proof fn law_directories_first_then_names(entries: Seq<FileEntryView>, a: int, b: int)
    requires
        0 <= a < b < entries.len(),
    ensures
        sorted(entries).len() == entries.len(),
        sorted(entries)[b].is_dir ==> sorted(entries)[a].is_dir,
        sorted(entries)[a].is_dir == sorted(entries)[b].is_dir ==> !crate::order::lex_less(
            crate::text::lowercase(sorted(entries)[b].name),
            crate::text::lowercase(sorted(entries)[a].name),
        ),
{
    let keys = sort_keys(entries);
    let order = crate::order::listing_order(keys);
    crate::order::law_listing_order_is_stable(keys);
    assert(0 <= order[a] < entries.len());
    assert(0 <= order[b] < entries.len());
    assert(crate::order::ranks_before(keys, order[a], order[b]));
    crate::order::law_lex_less_is_total_order(keys[order[a]].name, keys[order[b]].name);
}

/// Sorting neither adds, drops nor changes an entry.
pub proof fn law_sorting_keeps_entries(entries: Seq<FileEntryView>)
    ensures
        sorted(entries).to_multiset() == entries.to_multiset(),
{
    let order = crate::order::listing_order(sort_keys(entries));
    crate::order::law_listing_order_is_stable(sort_keys(entries));
    crate::order::lemma_arranged_multiset(entries, order);
    assert(sorted(entries) =~= order.map_values(|i: int| entries[i]));
}

/// Sorting a sorted listing again changes nothing.
pub proof fn law_sorting_twice_is_sorting_once(entries: Seq<FileEntryView>)
    ensures
        sorted(sorted(entries)) == sorted(entries),
{
    let keys = sort_keys(entries);
    let order = crate::order::listing_order(keys);
    crate::order::law_listing_order_is_stable(keys);
    let listed = sorted(entries);
    let listed_keys = sort_keys(listed);
    let same = Seq::new(listed.len(), |i: int| i);
    assert forall|k: int| 0 <= k < listed.len() implies #[trigger] listed_keys[k]
        == keys[order[k]] by {
        assert(0 <= order[k] < entries.len());
    }
    assert forall|a: int, b: int| 0 <= a < b < same.len() implies #[trigger] crate::order::ranks_before(
        listed_keys,
        same[a],
        same[b],
    ) by {
        assert(crate::order::ranks_before(keys, order[a], order[b]));
        assert(listed_keys[a] == keys[order[a]]);
        assert(listed_keys[b] == keys[order[b]]);
        crate::order::law_lex_less_is_total_order(listed_keys[a].name, listed_keys[b].name);
    }
    crate::order::law_listing_order_is_stable(listed_keys);
    crate::order::law_stable_order_is_unique(
        listed_keys,
        same,
        crate::order::listing_order(listed_keys),
    );
    assert(sorted(listed) =~= listed);
}

/// Permission letters depend on the lower nine bits only, and tell any two settings of these
/// apart.
pub proof fn law_permission_letters_are_the_lower_nine_bits(one: u32, two: u32)
    ensures
        permission_letters(one) == permission_letters(two) <==> one & 0o777 == two & 0o777,
{
    if permission_letters(one) == permission_letters(two) {
        assert forall|bit: u32| bit < 9 implies has_bit(one, bit) == has_bit(two, bit) by {
            let place = 8 - bit as int;
            assert(permission_letters(one)[place] == permission_letters(two)[place]);
        }
        assert(has_bit(one, 0) == has_bit(two, 0) && has_bit(one, 1) == has_bit(two, 1) && has_bit(
            one,
            2,
        ) == has_bit(two, 2) && has_bit(one, 3) == has_bit(two, 3) && has_bit(one, 4) == has_bit(
            two,
            4,
        ) && has_bit(one, 5) == has_bit(two, 5) && has_bit(one, 6) == has_bit(two, 6) && has_bit(
            one,
            7,
        ) == has_bit(two, 7) && has_bit(one, 8) == has_bit(two, 8));
        assert(one & 0o777 == two & 0o777) by (bit_vector)
            requires
                ((one >> 0) & 1 == 1) == ((two >> 0) & 1 == 1),
                ((one >> 1) & 1 == 1) == ((two >> 1) & 1 == 1),
                ((one >> 2) & 1 == 1) == ((two >> 2) & 1 == 1),
                ((one >> 3) & 1 == 1) == ((two >> 3) & 1 == 1),
                ((one >> 4) & 1 == 1) == ((two >> 4) & 1 == 1),
                ((one >> 5) & 1 == 1) == ((two >> 5) & 1 == 1),
                ((one >> 6) & 1 == 1) == ((two >> 6) & 1 == 1),
                ((one >> 7) & 1 == 1) == ((two >> 7) & 1 == 1),
                ((one >> 8) & 1 == 1) == ((two >> 8) & 1 == 1),
        ;
    }
    if one & 0o777 == two & 0o777 {
        assert forall|place: int| 0 <= place < 9 implies #[trigger] permission_letters(one)[place]
            == permission_letters(two)[place] by {
            let bit = (8 - place) as u32;
            assert((one >> bit) & 1 == (two >> bit) & 1) by (bit_vector)
                requires
                    one & 0o777 == two & 0o777,
                    bit < 9,
            ;
        }
        assert(permission_letters(one) =~= permission_letters(two));
    }
}

/// A prefix that is empty in lowercase leaves nothing out: the suggestions are the listing.
pub proof fn law_empty_prefix_suggests_all(remotes: Seq<RemoteEntryView>, prefix: Seq<char>)
    requires
        crate::text::lowercase(prefix).len() == 0,
    ensures
        suggestions(remotes, prefix) == listing(remotes),
{
    let lower = crate::text::lowercase(prefix);
    assert forall|remote: RemoteEntryView| #[trigger]
        suggestible(lower)(remote) == listable()(remote) by {
        let name = crate::text::lowercase(remote.name);
        assert(lower =~= name.subrange(0, 0));
    }
    assert(suggestible(lower) =~= listable());
}

proof fn lemma_filtered<A>(s: Seq<A>, pred: spec_fn(A) -> bool, a: A)
    ensures
        s.filter(pred).contains(a) <==> s.contains(a) && pred(a),
    decreases s.len(),
{
    reveal(Seq::filter);
    if s.len() > 0 {
        let rest = s.drop_last();
        lemma_filtered(rest, pred, a);
        assert(s =~= rest.push(s.last()));
        assert(s.contains(a) <==> rest.contains(a) || a == s.last()) by {
            if rest.contains(a) {
                let k = choose|k: int| 0 <= k < rest.len() && rest[k] == a;
                assert(s[k] == a);
            }
            if s.contains(a) {
                let k = choose|k: int| 0 <= k < s.len() && s[k] == a;
                if k < rest.len() {
                    assert(rest[k] == a);
                }
            }
            if a == s.last() {
                assert(s[s.len() - 1] == a);
            }
        }
        let kept = rest.filter(pred);
        if pred(s.last()) {
            assert(kept.push(s.last()).contains(a) <==> kept.contains(a) || a == s.last()) by {
                if kept.contains(a) {
                    let k = choose|k: int| 0 <= k < kept.len() && kept[k] == a;
                    assert(kept.push(s.last())[k] == a);
                }
                if a == s.last() {
                    assert(kept.push(s.last())[kept.len() as int] == a);
                }
            }
        }
    }
}

/// Entries reported under ASCII names are shown under ASCII names.
pub proof fn lemma_shown_names_ascii(
    remotes: Seq<RemoteEntryView>,
    pred: spec_fn(RemoteEntryView) -> bool,
)
    requires
        all_ascii(remote_names(remotes)),
    ensures
        all_ascii(entry_names(all_shown(remotes.filter(pred)))),
{
    let kept = remotes.filter(pred);
    let names = entry_names(all_shown(kept));
    assert forall|k: int| 0 <= k < names.len() implies #[trigger] vstd::utf8::is_ascii_chars(
        names[k],
    ) by {
        assert(kept.contains(kept[k]));
        lemma_filtered(remotes, pred, kept[k]);
        let from = choose|j: int| 0 <= j < remotes.len() && remotes[j] == kept[k];
        assert(vstd::utf8::is_ascii_chars(remote_names(remotes)[from]));
    }
}

proof fn lemma_sorted_shown(
    remotes: Seq<RemoteEntryView>,
    pred: spec_fn(RemoteEntryView) -> bool,
    entry: FileEntryView,
)
    ensures
        sorted(all_shown(remotes.filter(pred))).contains(entry) <==> exists|remote: RemoteEntryView|
            #![trigger shown(remote)]
            remotes.contains(remote) && pred(remote) && shown(remote) == entry,
{
    let kept = remotes.filter(pred);
    let entries = all_shown(kept);
    law_sorting_keeps_entries(entries);
    entries.to_multiset_ensures();
    sorted(entries).to_multiset_ensures();
    assert(entries.contains(entry) <==> entries.to_multiset().count(entry) > 0);
    assert(sorted(entries).contains(entry) <==> sorted(entries).to_multiset().count(entry) > 0);
    if entries.contains(entry) {
        let k = choose|k: int| 0 <= k < entries.len() && entries[k] == entry;
        assert(shown(kept[k]) == entry);
        assert(kept.contains(kept[k]));
        lemma_filtered(remotes, pred, kept[k]);
    }
    if exists|remote: RemoteEntryView|
        #![trigger shown(remote)]
        remotes.contains(remote) && pred(remote) && shown(remote) == entry {
        let remote = choose|remote: RemoteEntryView|
            #![trigger shown(remote)]
            remotes.contains(remote) && pred(remote) && shown(remote) == entry;
        lemma_filtered(remotes, pred, remote);
        let k = choose|k: int| 0 <= k < kept.len() && kept[k] == remote;
        assert(entries[k] == entry);
    }
}

/// A listing shows what the server reported, but for the directory itself and its parent, and
/// nothing else.
pub proof fn law_listing_shows_what_was_reported(
    remotes: Seq<RemoteEntryView>,
    entry: FileEntryView,
)
    ensures
        listing(remotes).contains(entry) <==> exists|remote: RemoteEntryView|
            #![trigger shown(remote)]
            remotes.contains(remote) && is_proper(remote.name) && shown(remote) == entry,
{
    lemma_sorted_shown(remotes, listable(), entry);
}

/// The suggestions are the listed entries whose lowercase name begins with the lowercase prefix.
pub proof fn law_suggestions_are_the_listed_matches(
    remotes: Seq<RemoteEntryView>,
    prefix: Seq<char>,
    entry: FileEntryView,
)
    ensures
        suggestions(remotes, prefix).contains(entry) <==> listing(remotes).contains(entry)
            && crate::text::lowercase(prefix).is_prefix_of(crate::text::lowercase(entry.name)),
{
    lemma_sorted_shown(remotes, suggestible(crate::text::lowercase(prefix)), entry);
    lemma_sorted_shown(remotes, listable(), entry);
}

/// Each of the nine places of a permissions string is fixed by a bit of its own: read, write and
/// execute for the user, then for the group, then for others. A cleared bit shows as a dash.
pub proof fn law_each_permission_bit_has_its_place(mode: u32)
    ensures
        permission_letters(mode).len() == 9,
        permission_letters(mode)[0] == if mode & 0o400 != 0 { 'r' } else { '-' },
        permission_letters(mode)[1] == if mode & 0o200 != 0 { 'w' } else { '-' },
        permission_letters(mode)[2] == if mode & 0o100 != 0 { 'x' } else { '-' },
        permission_letters(mode)[3] == if mode & 0o040 != 0 { 'r' } else { '-' },
        permission_letters(mode)[4] == if mode & 0o020 != 0 { 'w' } else { '-' },
        permission_letters(mode)[5] == if mode & 0o010 != 0 { 'x' } else { '-' },
        permission_letters(mode)[6] == if mode & 0o004 != 0 { 'r' } else { '-' },
        permission_letters(mode)[7] == if mode & 0o002 != 0 { 'w' } else { '-' },
        permission_letters(mode)[8] == if mode & 0o001 != 0 { 'x' } else { '-' },
{
    assert((mode & 0o400 != 0 <==> (mode >> 8) & 1 == 1) && (mode & 0o200 != 0 <==> (mode >> 7) & 1
        == 1) && (mode & 0o100 != 0 <==> (mode >> 6) & 1 == 1) && (mode & 0o040 != 0 <==> (mode
        >> 5) & 1 == 1) && (mode & 0o020 != 0 <==> (mode >> 4) & 1 == 1) && (mode & 0o010 != 0
        <==> (mode >> 3) & 1 == 1) && (mode & 0o004 != 0 <==> (mode >> 2) & 1 == 1) && (mode & 0o002
        != 0 <==> (mode >> 1) & 1 == 1) && (mode & 0o001 != 0 <==> (mode >> 0) & 1 == 1))
        by (bit_vector);
}

/// A mode is a directory's exactly if the four bits above the lower twelve are 0100.
pub proof fn law_directory_bits(mode: u32)
    ensures
        is_dir_mode(mode) <==> (mode >> 12) & 0xF == 4,
{
    assert(mode & 0xF000 == 0x4000 <==> (mode >> 12) & 0xF == 4) by (bit_vector);
}

/// Entries keep their number, their places and what they hold in specifications.
pub proof fn law_entry_views_keep_places(entries: Seq<FileEntry>, remotes: Seq<RemoteEntry>)
    ensures
        entry_views(entries).len() == entries.len(),
        forall|k: int|
            0 <= k < entries.len() ==> {
                let view = #[trigger] entry_views(entries)[k];
                &&& view.name == entries[k].name@
                &&& view.is_dir == entries[k].is_dir
                &&& view.size == entries[k].size
                &&& view.permissions == entries[k].permissions@
            },
        remote_views(remotes).len() == remotes.len(),
        forall|k: int|
            0 <= k < remotes.len() ==> {
                let view = #[trigger] remote_views(remotes)[k];
                &&& view.name == remotes[k].name@
                &&& view.size == remotes[k].size
                &&& view.permissions == remotes[k].permissions
            },
{
}

/// What is shown of a reported entry is its name, its size, whether its file type bits say
/// directory, and the letters of its permission bits. What the server left out counts as zero.
pub proof fn law_shown_entry_is_what_was_reported(remote: RemoteEntryView)
    ensures
        shown(remote).name == remote.name,
        shown(remote).size == match remote.size {
            Some(size) => size,
            None => 0,
        },
        ({
            let mode: u32 = match remote.permissions {
                Some(mode) => mode,
                None => 0,
            };
            &&& shown(remote).is_dir <==> mode & 0xF000 == 0x4000
            &&& shown(remote).permissions == permission_letters(mode)
        }),
{
}

/// Sorting puts the entries in the order of the returned indices, each of which occurs once. Of
/// any two, a directory comes before what is none, then the alphabetically smaller lowercase name,
/// then the one that came first.
pub proof fn law_sorting_is_stable(entries: Seq<FileEntryView>) -> (from: Seq<int>)
    ensures
        sorted(entries).len() == entries.len(),
        from.len() == entries.len(),
        from.no_duplicates(),
        forall|k: int|
            0 <= k < entries.len() ==> 0 <= #[trigger] from[k] < entries.len() && sorted(entries)[k]
                == entries[from[k]],
        forall|a: int, b: int|
            #![trigger from[a], from[b]]
            0 <= a < b < entries.len() ==> {
                let (one, two) = (entries[from[a]], entries[from[b]]);
                let (name, other) = (
                    crate::text::lowercase(one.name),
                    crate::text::lowercase(two.name),
                );
                &&& two.is_dir ==> one.is_dir
                &&& one.is_dir == two.is_dir ==> crate::order::lex_less(name, other) || (name
                    == other && from[a] < from[b])
            },
{
    let keys = sort_keys(entries);
    let order = crate::order::listing_order(keys);
    crate::order::law_listing_order_is_stable(keys);
    crate::order::law_listing_order_is_by_directory_name_and_index(keys);
    assert forall|a: int, b: int|
        #![trigger order[a], order[b]]
        0 <= a < b < entries.len() implies {
        let (one, two) = (entries[order[a]], entries[order[b]]);
        let (name, other) = (crate::text::lowercase(one.name), crate::text::lowercase(two.name));
        &&& two.is_dir ==> one.is_dir
        &&& one.is_dir == two.is_dir ==> crate::order::lex_less(name, other) || (name == other
            && order[a] < order[b])
    } by {
        assert(0 <= order[a] < entries.len() && 0 <= order[b] < entries.len());
        assert(keys[order[a]] == sort_key(entries[order[a]]));
        assert(keys[order[b]] == sort_key(entries[order[b]]));
    }
    order
}

/// The places of the accepted elements, in order.
proof fn lemma_filter_places<A>(s: Seq<A>, pred: spec_fn(A) -> bool) -> (places: Seq<int>)
    ensures
        places.len() == s.filter(pred).len(),
        forall|k: int|
            0 <= k < places.len() ==> 0 <= #[trigger] places[k] < s.len() && s.filter(pred)[k]
                == s[places[k]] && pred(s[places[k]]),
        forall|a: int, b: int| 0 <= a < b < places.len() ==> places[a] < places[b],
        forall|i: int| 0 <= i < s.len() && pred(#[trigger] s[i]) ==> places.contains(i),
    decreases s.len(),
{
    reveal(Seq::filter);
    if s.len() == 0 {
        Seq::empty()
    } else {
        let rest = s.drop_last();
        let before = lemma_filter_places(rest, pred);
        let last = s.len() - 1;
        let places = if pred(s.last()) {
            before.push(last)
        } else {
            before
        };
        assert forall|k: int| 0 <= k < places.len() implies 0 <= #[trigger] places[k] < s.len()
            && s.filter(pred)[k] == s[places[k]] && pred(s[places[k]]) by {
            if k < before.len() {
                assert(places[k] == before[k]);
                assert(rest[before[k]] == s[before[k]]);
            }
        }
        assert forall|a: int, b: int| 0 <= a < b < places.len() implies places[a] < places[b] by {
            assert(places[a] == before[a]);
            if b < before.len() {
                assert(places[b] == before[b]);
            }
        }
        assert forall|i: int| 0 <= i < s.len() && pred(#[trigger] s[i]) implies places.contains(
            i,
        ) by {
            if i < rest.len() {
                assert(rest[i] == s[i]);
                let k = choose|k: int| 0 <= k < before.len() && before[k] == i;
                assert(places[k] == i);
            } else {
                assert(places[before.len() as int] == i);
            }
        }
        places
    }
}

/// What is shown of the accepted entries, sorted, comes from the returned places.
proof fn lemma_sorted_selection(
    remotes: Seq<RemoteEntryView>,
    pred: spec_fn(RemoteEntryView) -> bool,
) -> (from: Seq<int>)
    ensures
        sorted(all_shown(remotes.filter(pred))).len() == from.len(),
        from.no_duplicates(),
        forall|i: int| #[trigger]
            from.contains(i) <==> 0 <= i < remotes.len() && pred(remotes[i]),
        forall|k: int|
            0 <= k < from.len() ==> 0 <= #[trigger] from[k] < remotes.len() && sorted(
                all_shown(remotes.filter(pred)),
            )[k] == shown(remotes[from[k]]),
        forall|a: int, b: int|
            #![trigger sorted(all_shown(remotes.filter(pred)))[a], sorted(all_shown(remotes.filter(pred)))[b]]
            0 <= a < b < from.len() ==> {
                let (one, two) = (
                    sorted(all_shown(remotes.filter(pred)))[a],
                    sorted(all_shown(remotes.filter(pred)))[b],
                );
                let (name, other) = (
                    crate::text::lowercase(one.name),
                    crate::text::lowercase(two.name),
                );
                &&& two.is_dir ==> one.is_dir
                &&& one.is_dir == two.is_dir ==> crate::order::lex_less(name, other) || (name
                    == other && from[a] < from[b])
            },
{
    let kept = remotes.filter(pred);
    let entries = all_shown(kept);
    let places = lemma_filter_places(remotes, pred);
    let order = law_sorting_is_stable(entries);
    let from = order.map_values(|j: int| places[j]);
    assert forall|k: int| 0 <= k < from.len() implies 0 <= #[trigger] from[k] < remotes.len()
        && sorted(entries)[k] == shown(remotes[from[k]]) && pred(remotes[from[k]]) by {
        assert(from[k] == places[order[k]]);
        assert(entries[order[k]] == shown(kept[order[k]]));
    }
    assert forall|a: int, b: int|
        0 <= a < from.len() && 0 <= b < from.len() && a != b implies from[a] != from[b] by {
        assert(order[a] != order[b]);
        if order[a] < order[b] {
            assert(places[order[a]] < places[order[b]]);
        } else {
            assert(places[order[b]] < places[order[a]]);
        }
    }
    assert forall|i: int| #[trigger]
        from.contains(i) <==> 0 <= i < remotes.len() && pred(remotes[i]) by {
        if from.contains(i) {
            let k = choose|k: int| 0 <= k < from.len() && from[k] == i;
            assert(pred(remotes[from[k]]));
        }
        if 0 <= i < remotes.len() && pred(remotes[i]) {
            assert(places.contains(i));
            let j = choose|j: int| 0 <= j < places.len() && places[j] == i;
            crate::order::lemma_permutation_covers(order, entries.len(), j);
            let k = choose|k: int| 0 <= k < order.len() && order[k] == j;
            assert(from[k] == i);
        }
    }
    assert forall|a: int, b: int|
        #![trigger sorted(entries)[a], sorted(entries)[b]]
        0 <= a < b < from.len() implies {
        let (one, two) = (sorted(entries)[a], sorted(entries)[b]);
        let (name, other) = (crate::text::lowercase(one.name), crate::text::lowercase(two.name));
        &&& two.is_dir ==> one.is_dir
        &&& one.is_dir == two.is_dir ==> crate::order::lex_less(name, other) || (name == other
            && from[a] < from[b])
    } by {
        assert(from[a] == places[order[a]] && from[b] == places[order[b]]);
        assert(entries[order[a]] == shown(remotes[from[a]]));
        assert(entries[order[b]] == shown(remotes[from[b]]));
        if order[a] < order[b] {
            assert(places[order[a]] < places[order[b]]);
        }
    }
    from
}

/// A listing shows each reported entry but `.` and `..` once, in the order of the returned places.
/// Of any two, a directory comes before what is none, then the alphabetically smaller lowercase
/// name, then the one reported first.
pub proof fn law_listing_is_every_entry_in_order(remotes: Seq<RemoteEntryView>) -> (from: Seq<int>)
    ensures
        listing(remotes).len() == from.len(),
        from.no_duplicates(),
        forall|i: int| #[trigger]
            from.contains(i) <==> 0 <= i < remotes.len() && remotes[i].name != seq!['.']
                && remotes[i].name != seq!['.', '.'],
        forall|k: int|
            0 <= k < from.len() ==> 0 <= #[trigger] from[k] < remotes.len() && listing(remotes)[k]
                == shown(remotes[from[k]]),
        forall|a: int, b: int|
            #![trigger listing(remotes)[a], listing(remotes)[b]]
            0 <= a < b < from.len() ==> {
                let (one, two) = (listing(remotes)[a], listing(remotes)[b]);
                let (name, other) = (
                    crate::text::lowercase(one.name),
                    crate::text::lowercase(two.name),
                );
                &&& two.is_dir ==> one.is_dir
                &&& one.is_dir == two.is_dir ==> crate::order::lex_less(name, other) || (name
                    == other && from[a] < from[b])
            },
{
    lemma_sorted_selection(remotes, listable())
}

/// The suggestions show each reported entry but `.` and `..` whose lowercase name begins with the
/// lowercase prefix once, in the order of the returned places, which is that of a listing.
pub proof fn law_suggestions_are_every_match_in_order(
    remotes: Seq<RemoteEntryView>,
    prefix: Seq<char>,
) -> (from: Seq<int>)
    ensures
        suggestions(remotes, prefix).len() == from.len(),
        from.no_duplicates(),
        forall|i: int| #[trigger]
            from.contains(i) <==> 0 <= i < remotes.len() && remotes[i].name != seq!['.']
                && remotes[i].name != seq!['.', '.'] && ({
                let (start, name) = (
                    crate::text::lowercase(prefix),
                    crate::text::lowercase(remotes[i].name),
                );
                start.len() <= name.len() && name.take(start.len() as int) == start
            }),
        forall|k: int|
            0 <= k < from.len() ==> 0 <= #[trigger] from[k] < remotes.len() && suggestions(
                remotes,
                prefix,
            )[k] == shown(remotes[from[k]]),
        forall|a: int, b: int|
            #![trigger suggestions(remotes, prefix)[a], suggestions(remotes, prefix)[b]]
            0 <= a < b < from.len() ==> {
                let (one, two) = (suggestions(remotes, prefix)[a], suggestions(remotes, prefix)[b]);
                let (name, other) = (
                    crate::text::lowercase(one.name),
                    crate::text::lowercase(two.name),
                );
                &&& two.is_dir ==> one.is_dir
                &&& one.is_dir == two.is_dir ==> crate::order::lex_less(name, other) || (name
                    == other && from[a] < from[b])
            },
{
    let start = crate::text::lowercase(prefix);
    let from = lemma_sorted_selection(remotes, suggestible(start));
    assert forall|i: int| #[trigger]
        from.contains(i) <==> 0 <= i < remotes.len() && remotes[i].name != seq!['.']
            && remotes[i].name != seq!['.', '.'] && ({
            let name = crate::text::lowercase(remotes[i].name);
            start.len() <= name.len() && name.take(start.len() as int) == start
        }) by {
        let name = crate::text::lowercase(remotes[i].name);
        if start.len() <= name.len() {
            assert(name.take(start.len() as int) =~= name.subrange(0, start.len() as int));
        }
    }
    from
}

proof fn lemma_ascii_char(c: char)
    requires
        c as int <= 127,
    ensures
        '\0' <= c <= '\u{7f}',
{
}

/// Names are ASCII exactly if no character of any of them has a code point above 127.
pub proof fn law_ascii_names_hold_small_code_points(
    entries: Seq<FileEntryView>,
    remotes: Seq<RemoteEntryView>,
)
    ensures
        all_ascii(entry_names(entries)) <==> forall|k: int, j: int|
            0 <= k < entries.len() && 0 <= j < entries[k].name.len() ==> (
            #[trigger] entries[k].name[j]) as int <= 127,
        all_ascii(remote_names(remotes)) <==> forall|k: int, j: int|
            0 <= k < remotes.len() && 0 <= j < remotes[k].name.len() ==> (
            #[trigger] remotes[k].name[j]) as int <= 127,
{
    let (names, reported) = (entry_names(entries), remote_names(remotes));
    if all_ascii(names) {
        assert forall|k: int, j: int|
            0 <= k < entries.len() && 0 <= j < entries[k].name.len() implies (
        #[trigger] entries[k].name[j]) as int <= 127 by {
            assert(vstd::utf8::is_ascii_chars(names[k]));
            assert(names[k][j] <= '\u{7f}');
        }
    }
    if all_ascii(reported) {
        assert forall|k: int, j: int|
            0 <= k < remotes.len() && 0 <= j < remotes[k].name.len() implies (
        #[trigger] remotes[k].name[j]) as int <= 127 by {
            assert(vstd::utf8::is_ascii_chars(reported[k]));
            assert(reported[k][j] <= '\u{7f}');
        }
    }
    if forall|k: int, j: int|
        0 <= k < entries.len() && 0 <= j < entries[k].name.len() ==> (
        #[trigger] entries[k].name[j]) as int <= 127 {
        assert forall|k: int| 0 <= k < names.len() implies #[trigger] vstd::utf8::is_ascii_chars(
            names[k],
        ) by {
            assert forall|j: int| 0 <= j < names[k].len() implies '\0' <= #[trigger] names[k][j]
                <= '\u{7f}' by {
                lemma_ascii_char(entries[k].name[j]);
            }
        }
    }
    if forall|k: int, j: int|
        0 <= k < remotes.len() && 0 <= j < remotes[k].name.len() ==> (
        #[trigger] remotes[k].name[j]) as int <= 127 {
        assert forall|k: int| 0 <= k < reported.len() implies #[trigger] vstd::utf8::is_ascii_chars(
            reported[k],
        ) by {
            assert forall|j: int| 0 <= j < reported[k].len() implies '\0' <= #[trigger] reported[k][j]
                <= '\u{7f}' by {
                lemma_ascii_char(remotes[k].name[j]);
            }
        }
    }
}

/// Where the lowercase forms of the names are the ASCII ones, sorting by either is the same.
pub proof fn law_ascii_sorting_is_sorting(entries: Seq<FileEntryView>)
    requires
        forall|k: int|
            0 <= k < entries.len() ==> crate::text::lowercase((#[trigger] entries[k]).name)
                == crate::text::ascii_lowercase(entries[k].name),
    ensures
        ascii_sorted(entries) == sorted(entries),
{
    assert(ascii_sort_keys(entries) =~= sort_keys(entries));
}

/// Where the lowercase forms of the prefix and the names are the ASCII ones, the listing and the
/// suggestions for ASCII names are the listing and the suggestions.
pub proof fn law_ascii_listing_is_the_listing(remotes: Seq<RemoteEntryView>, prefix: Seq<char>)
    requires
        forall|k: int|
            0 <= k < remotes.len() ==> crate::text::lowercase((#[trigger] remotes[k]).name)
                == crate::text::ascii_lowercase(remotes[k].name),
        crate::text::lowercase(prefix) == crate::text::ascii_lowercase(prefix),
    ensures
        ascii_listing(remotes) == listing(remotes),
        ascii_suggestions(remotes, prefix) == suggestions(remotes, prefix),
{
    let start = crate::text::lowercase(prefix);
    lemma_same_filter(remotes, suggestible(start), ascii_suggestible(start));
    lemma_ascii_selection(remotes, listable());
    lemma_ascii_selection(remotes, suggestible(start));
}

proof fn lemma_same_filter<A>(s: Seq<A>, one: spec_fn(A) -> bool, two: spec_fn(A) -> bool)
    requires
        forall|k: int| 0 <= k < s.len() ==> one(#[trigger] s[k]) == two(s[k]),
    ensures
        s.filter(one) == s.filter(two),
    decreases s.len(),
{
    reveal(Seq::filter);
    if s.len() > 0 {
        let rest = s.drop_last();
        assert forall|k: int| 0 <= k < rest.len() implies one(#[trigger] rest[k]) == two(rest[k]) by {
            assert(rest[k] == s[k]);
        }
        lemma_same_filter(rest, one, two);
        assert(one(s[s.len() - 1]) == two(s[s.len() - 1]));
    }
}

proof fn lemma_ascii_selection(
    remotes: Seq<RemoteEntryView>,
    pred: spec_fn(RemoteEntryView) -> bool,
)
    requires
        forall|k: int|
            0 <= k < remotes.len() ==> crate::text::lowercase((#[trigger] remotes[k]).name)
                == crate::text::ascii_lowercase(remotes[k].name),
    ensures
        ascii_sorted(all_shown(remotes.filter(pred))) == sorted(all_shown(remotes.filter(pred))),
{
    let entries = all_shown(remotes.filter(pred));
    let places = lemma_filter_places(remotes, pred);
    assert forall|k: int| 0 <= k < entries.len() implies crate::text::lowercase(
        (#[trigger] entries[k]).name,
    ) == crate::text::ascii_lowercase(entries[k].name) by {
        assert(entries[k].name == remotes[places[k]].name);
    }
    law_ascii_sorting_is_sorting(entries);
}

} // verus!
