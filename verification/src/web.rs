//! Landing-page assembly: the registry's metadata is projected into display
//! records, sorted case-insensitively by canonical alias, rendered into one
//! deterministic markup document, and memoized for the life of the process.

use vstd::prelude::*;
use vstd::string::StrSliceExecFns;
use vstd::string::StringExecFns;
use crate::command::BunnypmslCommandInfo;
use crate::order::{ci_le, ci_le_strings, lemma_ci_le_total, lemma_ci_le_trans};
use crate::registry::{
    command_bindings, command_description, command_example, info_matches, list_all_metadata,
    registered_commands, RegisteredCommand,
};

verus! {

/// Data for one command binding as displayed on the landing page.
pub struct BindingData {
    pub command: String,
    pub description: String,
    pub example: String,
}

/// The mathematical shadow of a [`BindingData`] record.
#[verifier::ext_equal]
pub ghost struct BindingDataView {
    pub command: Seq<char>,
    pub description: Seq<char>,
    pub example: Seq<char>,
}

impl View for BindingData {
    type V = BindingDataView;

    open spec fn view(&self) -> BindingDataView {
        BindingDataView {
            command: self.command@,
            description: self.description@,
            example: self.example@,
        }
    }
}

/// The views of a sequence of display records, elementwise.
pub open spec fn views_of(s: Seq<BindingData>) -> Seq<BindingDataView> {
    Seq::new(s.len(), |i: int| s[i]@)
}

/// The display record an info record projects to: its canonical alias is the
/// first binding, or a literal placeholder if the alias list is empty.
pub open spec fn binding_data_of_info(info: BunnypmslCommandInfo) -> BindingDataView {
    BindingDataView {
        command: if info.bindings.deep_view().len() > 0 {
            info.bindings.deep_view()[0]
        } else {
            "(default)"@
        },
        description: info.description@,
        example: info.example@,
    }
}

impl BindingData {
    /// Project an info record into a display record.
    pub fn from_info(info: &BunnypmslCommandInfo) -> (r: BindingData)
        ensures
            r@ == binding_data_of_info(*info),
    {
        let command = if info.bindings.len() > 0 {
            info.bindings[0].clone()
        } else {
            String::from_str("(default)")
        };
        BindingData {
            command,
            description: info.description.clone(),
            example: info.example.clone(),
        }
    }
}

/// The display record a registered command projects to.
pub open spec fn binding_view_of(c: RegisteredCommand) -> BindingDataView {
    BindingDataView {
        command: if command_bindings(c).len() > 0 {
            command_bindings(c)[0]
        } else {
            "(default)"@
        },
        description: command_description(c),
        example: command_example(c),
    }
}

/// The whole registry's display records, in registration order.
pub open spec fn registry_binding_views() -> Seq<BindingDataView> {
    Seq::new(registered_commands().len(), |i: int| binding_view_of(registered_commands()[i]))
}

/// Insertion of a record into a run of records: before the first record whose
/// command comes strictly later, case-insensitively.
pub open spec fn insert_sorted(x: BindingDataView, s: Seq<BindingDataView>) -> Seq<
    BindingDataView,
>
    decreases s.len(),
{
    if s.len() == 0 {
        seq![x]
    } else if ci_le(s[0].command, x.command) {
        seq![s[0]] + insert_sorted(x, s.skip(1))
    } else {
        seq![x] + s
    }
}

/// Insertion sort over the records, left to right.
pub open spec fn sort_from(acc: Seq<BindingDataView>, s: Seq<BindingDataView>) -> Seq<
    BindingDataView,
>
    decreases s.len(),
{
    if s.len() == 0 {
        acc
    } else {
        sort_from(insert_sorted(s[0], acc), s.skip(1))
    }
}

/// The records sorted case-insensitively by command.
pub open spec fn sort_by_command(s: Seq<BindingDataView>) -> Seq<BindingDataView> {
    sort_from(Seq::empty(), s)
}

/// Sortedness, case-insensitively by command.
pub open spec fn ci_sorted(s: Seq<BindingDataView>) -> bool {
    forall|i: int, j: int| 0 <= i < j < s.len() ==> ci_le(s[i].command, s[j].command)
}

proof fn lemma_insert_sorted(x: BindingDataView, s: Seq<BindingDataView>)
    requires
        ci_sorted(s),
    ensures
        ci_sorted(insert_sorted(x, s)),
        insert_sorted(x, s).len() == s.len() + 1,
        forall|k: int|
            0 <= k < insert_sorted(x, s).len() ==> insert_sorted(x, s)[k] == x || s.contains(
                insert_sorted(x, s)[k],
            ),
    decreases s.len(),
{
    let r = insert_sorted(x, s);
    if s.len() == 0 {
        assert(r =~= seq![x]);
    } else if ci_le(s[0].command, x.command) {
        let tail = s.skip(1);
        assert(ci_sorted(tail)) by {
            assert forall|i: int, j: int| 0 <= i < j < tail.len() implies ci_le(
                tail[i].command,
                tail[j].command,
            ) by {
                assert(tail[i] == s[i + 1]);
                assert(tail[j] == s[j + 1]);
            }
        }
        lemma_insert_sorted(x, tail);
        let r1 = insert_sorted(x, tail);
        assert(r =~= seq![s[0]] + r1);
        assert forall|i: int, j: int| 0 <= i < j < r.len() implies ci_le(
            r[i].command,
            r[j].command,
        ) by {
            if i == 0 {
                assert(r[j] == r1[j - 1]);
                if r1[j - 1] == x {
                    assert(ci_le(s[0].command, x.command));
                } else {
                    assert(tail.contains(r1[j - 1]));
                    let m = choose|m: int| 0 <= m < tail.len() && tail[m] == r1[j - 1];
                    assert(s[m + 1] == r1[j - 1]);
                    assert(ci_le(s[0].command, s[m + 1].command));
                }
            } else {
                assert(r[i] == r1[i - 1] && r[j] == r1[j - 1]);
            }
        }
        assert forall|k: int| 0 <= k < r.len() implies r[k] == x || s.contains(r[k]) by {
            if k == 0 {
                assert(s[0] == r[0]);
                assert(s.contains(r[0]));
            } else {
                assert(r[k] == r1[k - 1]);
                if r1[k - 1] != x {
                    assert(tail.contains(r1[k - 1]));
                    let m = choose|m: int| 0 <= m < tail.len() && tail[m] == r1[k - 1];
                    assert(s[m + 1] == r1[k - 1]);
                    assert(s.contains(r[k]));
                }
            }
        }
    } else {
        assert(r =~= seq![x] + s);
        lemma_ci_le_total(s[0].command, x.command);
        assert(ci_le(x.command, s[0].command));
        assert forall|i: int, j: int| 0 <= i < j < r.len() implies ci_le(
            r[i].command,
            r[j].command,
        ) by {
            if i == 0 {
                assert(r[j] == s[j - 1]);
                if j - 1 > 0 {
                    assert(ci_le(s[0].command, s[j - 1].command));
                    lemma_ci_le_trans(x.command, s[0].command, s[j - 1].command);
                }
            } else {
                assert(r[i] == s[i - 1] && r[j] == s[j - 1]);
            }
        }
        assert forall|k: int| 0 <= k < r.len() implies r[k] == x || s.contains(r[k]) by {
            if k > 0 {
                assert(r[k] == s[k - 1]);
                assert(s.contains(r[k]));
            }
        }
    }
}

proof fn lemma_sort_from_sorted(acc: Seq<BindingDataView>, s: Seq<BindingDataView>)
    requires
        ci_sorted(acc),
    ensures
        ci_sorted(sort_from(acc, s)),
    decreases s.len(),
{
    if s.len() > 0 {
        lemma_insert_sorted(s[0], acc);
        lemma_sort_from_sorted(insert_sorted(s[0], acc), s.skip(1));
    }
}

/// The sorted record list really is sorted, case-insensitively by command.
pub proof fn lemma_sort_by_command_sorted(s: Seq<BindingDataView>)
    ensures
        ci_sorted(sort_by_command(s)),
{
    lemma_sort_from_sorted(Seq::empty(), s);
}

proof fn lemma_insert_sorted_multiset(x: BindingDataView, s: Seq<BindingDataView>)
    ensures
        insert_sorted(x, s).to_multiset() =~= s.to_multiset().insert(x),
    decreases s.len(),
{
    broadcast use vstd::seq_lib::group_to_multiset_ensures;

    if s.len() == 0 {
        assert(insert_sorted(x, s) =~= Seq::<BindingDataView>::empty().push(x));
        assert(s =~= Seq::<BindingDataView>::empty());
    } else if ci_le(s[0].command, x.command) {
        let r1 = insert_sorted(x, s.skip(1));
        lemma_insert_sorted_multiset(x, s.skip(1));
        assert(insert_sorted(x, s) =~= seq![s[0]] + r1);
        vstd::seq_lib::lemma_multiset_commutative(seq![s[0]], r1);
        assert(s =~= seq![s[0]] + s.skip(1));
        vstd::seq_lib::lemma_multiset_commutative(seq![s[0]], s.skip(1));
        assert(seq![s[0]].to_multiset().add(s.skip(1).to_multiset().insert(x))
            =~= seq![s[0]].to_multiset().add(s.skip(1).to_multiset()).insert(x));
    } else {
        assert(insert_sorted(x, s) =~= seq![x] + s);
        vstd::seq_lib::lemma_multiset_commutative(seq![x], s);
        assert(seq![x] =~= Seq::<BindingDataView>::empty().push(x));
        assert(seq![x].to_multiset().add(s.to_multiset()) =~= s.to_multiset().insert(x));
    }
}

proof fn lemma_sort_from_multiset(acc: Seq<BindingDataView>, s: Seq<BindingDataView>)
    ensures
        sort_from(acc, s).to_multiset() =~= acc.to_multiset().add(s.to_multiset()),
    decreases s.len(),
{
    broadcast use vstd::seq_lib::group_to_multiset_ensures;

    if s.len() == 0 {
        assert(s =~= Seq::<BindingDataView>::empty());
        assert(acc.to_multiset().add(s.to_multiset()) =~= acc.to_multiset());
    } else {
        lemma_insert_sorted_multiset(s[0], acc);
        lemma_sort_from_multiset(insert_sorted(s[0], acc), s.skip(1));
        assert(s =~= seq![s[0]] + s.skip(1));
        vstd::seq_lib::lemma_multiset_commutative(seq![s[0]], s.skip(1));
        assert(seq![s[0]] =~= Seq::<BindingDataView>::empty().push(s[0]));
        assert(acc.to_multiset().insert(s[0]).add(s.skip(1).to_multiset()) =~= acc.to_multiset().add(
            seq![s[0]].to_multiset().add(s.skip(1).to_multiset()),
        ));
    }
}

/// Sorting keeps exactly the records it was given: the sorted list is a
/// permutation of the input.
pub proof fn lemma_sort_by_command_permutes(s: Seq<BindingDataView>)
    ensures
        sort_by_command(s).to_multiset() =~= s.to_multiset(),
{
    broadcast use vstd::seq_lib::group_to_multiset_ensures;

    lemma_sort_from_multiset(Seq::empty(), s);
    assert(Seq::<BindingDataView>::empty().to_multiset().add(s.to_multiset())
        =~= s.to_multiset());
}

/// The directory the landing page renders is sorted case-insensitively by
/// canonical alias.
pub proof fn lemma_landing_directory_sorted()
    ensures
        ci_sorted(sort_by_command(registry_binding_views())),
{
    lemma_sort_by_command_sorted(registry_binding_views());
}

proof fn lemma_insert_sorted_at(x: BindingDataView, s: Seq<BindingDataView>, p: int)
    requires
        0 <= p <= s.len(),
        forall|j: int| 0 <= j < p ==> ci_le(#[trigger] s[j].command, x.command),
        p == s.len() || !ci_le(s[p].command, x.command),
    ensures
        insert_sorted(x, s) == s.take(p) + seq![x] + s.skip(p),
    decreases p,
{
    if p == 0 {
        if s.len() == 0 {
            assert(insert_sorted(x, s) =~= s.take(0) + seq![x] + s.skip(0));
        } else {
            assert(insert_sorted(x, s) =~= s.take(0) + seq![x] + s.skip(0));
        }
    } else {
        let tail = s.skip(1);
        assert(forall|j: int| 0 <= j < p - 1 ==> ci_le(#[trigger] tail[j].command, x.command));
        assert(p - 1 == tail.len() || !ci_le(tail[p - 1].command, x.command));
        lemma_insert_sorted_at(x, tail, p - 1);
        assert(seq![s[0]] + (tail.take(p - 1) + seq![x] + tail.skip(p - 1)) =~= s.take(p)
            + seq![x] + s.skip(p));
    }
}

/// Insert one record into an already processed, ordered run.
fn insert_binding(out: &mut Vec<BindingData>, x: BindingData)
    ensures
        views_of(final(out)@) == insert_sorted(x@, views_of(old(out)@)),
{
    let ghost sv = views_of(old(out)@);
    let mut k: usize = 0;
    while k < out.len() && ci_le_strings(out[k].command.as_str(), x.command.as_str())
        invariant
            k <= out.len(),
            *out == *old(out),
            sv == views_of(out@),
            forall|j: int| 0 <= j < k ==> ci_le(#[trigger] sv[j].command, x@.command),
        decreases out.len() - k,
    {
        proof {
            assert(sv[k as int] == out@[k as int]@);
        }
        k += 1;
    }
    proof {
        lemma_insert_sorted_at(x@, sv, k as int);
    }
    out.insert(k, x);
    proof {
        assert(views_of(out@) =~= sv.take(k as int) + seq![x@] + sv.skip(k as int));
    }
}

/// Sort the display records case-insensitively by command.
fn sort_binding_data(items: Vec<BindingData>) -> (r: Vec<BindingData>)
    ensures
        views_of(r@) == sort_by_command(views_of(items@)),
{
    let ghost full = views_of(items@);
    let mut out: Vec<BindingData> = Vec::new();
    proof {
        assert(views_of(out@) =~= Seq::<BindingDataView>::empty());
        assert(full.skip(0) =~= full);
    }
    let mut i: usize = 0;
    while i < items.len()
        invariant
            i <= items.len(),
            full == views_of(items@),
            sort_by_command(full) == sort_from(views_of(out@), full.skip(i as int)),
        decreases items.len() - i,
    {
        let ghost out_views = views_of(out@);
        let x = items[i].clone_record();
        insert_binding(&mut out, x);
        proof {
            assert(full.skip(i as int)[0] == full[i as int]);
            assert(full[i as int] == items@[i as int]@);
            assert(full.skip(i as int).skip(1) =~= full.skip(i + 1));
        }
        i += 1;
    }
    proof {
        assert(full.skip(items@.len() as int) =~= Seq::<BindingDataView>::empty());
    }
    out
}

impl BindingData {
    /// A copy of the record, field by field.
    pub fn clone_record(&self) -> (r: BindingData)
        ensures
            r@ == self@,
    {
        BindingData {
            command: self.command.clone(),
            description: self.description.clone(),
            example: self.example.clone(),
        }
    }
}

/// The markup for one display record.
pub open spec fn render_binding(b: BindingDataView) -> Seq<char> {
    "<li><code>"@ + b.command + "</code> - "@ + b.description + " (e.g. <code>"@ + b.example
        + "</code>)</li>"@
}

/// The markup for a run of display records, in order.
pub open spec fn render_bindings(s: Seq<BindingDataView>) -> Seq<char>
    decreases s.len(),
{
    if s.len() == 0 {
        Seq::empty()
    } else {
        render_binding(s[0]) + render_bindings(s.skip(1))
    }
}

proof fn lemma_render_bindings_snoc(s: Seq<BindingDataView>, b: BindingDataView)
    ensures
        render_bindings(s.push(b)) == render_bindings(s) + render_binding(b),
    decreases s.len(),
{
    let sb = s.push(b);
    if s.len() == 0 {
        assert(sb[0] == b);
        assert(sb.skip(1) =~= Seq::<BindingDataView>::empty());
        assert(render_bindings(sb) == render_binding(b) + render_bindings(
            Seq::<BindingDataView>::empty(),
        ));
        assert(render_binding(b) + Seq::<char>::empty() =~= Seq::<char>::empty()
            + render_binding(b));
    } else {
        lemma_render_bindings_snoc(s.skip(1), b);
        assert(sb[0] == s[0]);
        assert(sb.skip(1) =~= s.skip(1).push(b));
        assert(render_bindings(sb) == render_binding(s[0]) + (render_bindings(s.skip(1))
            + render_binding(b)));
        assert(render_binding(s[0]) + (render_bindings(s.skip(1)) + render_binding(b)) =~= (
        render_binding(s[0]) + render_bindings(s.skip(1))) + render_binding(b));
    }
}

/// The whole landing-page document for a given display URL: a header with the
/// display URL, one concrete example redirect, a search-template example with
/// `%s` in place of the query, and the sorted directory of all commands.
pub open spec fn landing_page_spec(display_url: Seq<char>) -> Seq<char> {
    "<html><head><title>Bunnypmsl</title></head><body><h1>Bunnypmsl</h1><p>Server: "@
        + display_url + "</p><p>Example: "@ + display_url
        + "/?cmd=gh daveio/bunnypmsl</p><p>Search engine: "@ + display_url + "/?cmd=%s</p><ul>"@
        + render_bindings(sort_by_command(registry_binding_views())) + "</ul></body></html>"@
}

/// Render the landing page from the registry's metadata, with the directory
/// sorted case-insensitively by canonical alias.
fn render_landing_page_uncached(display_url: &str) -> (r: String)
    ensures
        r@ == landing_page_spec(display_url@),
{
    let infos = list_all_metadata();
    let mut items: Vec<BindingData> = Vec::new();
    proof {
        assert(views_of(items@) =~= registry_binding_views().take(0));
    }
    let mut i: usize = 0;
    while i < infos.len()
        invariant
            i <= infos@.len(),
            infos@.len() == registered_commands().len(),
            forall|j: int|
                0 <= j < infos@.len() ==> #[trigger] info_matches(
                    infos@[j],
                    registered_commands()[j],
                ),
            views_of(items@) == registry_binding_views().take(i as int),
        decreases infos@.len() - i,
    {
        let ghost prev = items@;
        let b = BindingData::from_info(&infos[i]);
        items.push(b);
        proof {
            assert(info_matches(infos@[i as int], registered_commands()[i as int]));
            assert(binding_data_of_info(infos@[i as int]) =~= binding_view_of(
                registered_commands()[i as int],
            ));
            assert(views_of(prev).len() == prev.len());
            assert(prev.len() == i as int);
            assert(items@ == prev.push(b));
            assert forall|j: int| 0 <= j < i + 1 implies views_of(items@)[j]
                == registry_binding_views().take(i + 1)[j] by {
                if j < i {
                    assert(views_of(items@)[j] == items@[j]@);
                    assert(items@[j] == prev[j]);
                    assert(views_of(prev)[j] == prev[j]@);
                    assert(views_of(prev)[j] == registry_binding_views().take(i as int)[j]);
                } else {
                    assert(views_of(items@)[j] == b@);
                }
            }
            assert(views_of(items@) =~= registry_binding_views().take(i + 1));
        }
        i += 1;
    }
    proof {
        assert(registry_binding_views().take(registered_commands().len() as int)
            =~= registry_binding_views());
    }
    let sorted = sort_binding_data(items);
    let ghost sv = views_of(sorted@);
    let mut page = String::new();
    page.append(
        "<html><head><title>Bunnypmsl</title></head><body><h1>Bunnypmsl</h1><p>Server: ",
    );
    page.append(display_url);
    page.append("</p><p>Example: ");
    page.append(display_url);
    page.append("/?cmd=gh daveio/bunnypmsl</p><p>Search engine: ");
    page.append(display_url);
    page.append("/?cmd=%s</p><ul>");
    let ghost head = page@;
    proof {
        assert(sv.take(0) =~= Seq::<BindingDataView>::empty());
        assert(head + render_bindings(sv.take(0)) =~= head);
    }
    let mut k: usize = 0;
    while k < sorted.len()
        invariant
            k <= sorted@.len(),
            sv == views_of(sorted@),
            page@ == head + render_bindings(sv.take(k as int)),
        decreases sorted@.len() - k,
    {
        page.append("<li><code>");
        page.append(sorted[k].command.as_str());
        page.append("</code> - ");
        page.append(sorted[k].description.as_str());
        page.append(" (e.g. <code>");
        page.append(sorted[k].example.as_str());
        page.append("</code>)</li>");
        proof {
            assert(sv[k as int] == sorted@[k as int]@);
            lemma_render_bindings_snoc(sv.take(k as int), sv[k as int]);
            assert(sv.take(k as int).push(sv[k as int]) =~= sv.take(k + 1));
            assert(page@ =~= head + render_bindings(sv.take(k + 1)));
        }
        k += 1;
    }
    proof {
        assert(sv.take(sorted@.len() as int) =~= sv);
    }
    page.append("</ul></body></html>");
    proof {
        assert(page@ =~= landing_page_spec(display_url@));
    }
    page
}

/// The memoized landing page: holds the document once it has been rendered.
pub struct LandingPageCache {
    cached: Option<String>,
}

impl LandingPageCache {
    /// The cached document, if one has been rendered.
    pub closed spec fn spec_cached(&self) -> Option<Seq<char>> {
        match self.cached {
            Some(s) => Some(s@),
            None => None,
        }
    }

    /// An empty cache: nothing rendered yet.
    pub fn new() -> (r: Self)
        ensures
            r.spec_cached() is None,
    {
        LandingPageCache { cached: None }
    }
}

/// Render the landing page HTML, computing it at most once per cache: the
/// first call renders from the given display URL and stores the document; all
/// later calls return the stored document byte for byte, whatever display URL
/// they pass.
pub fn render_landing_page_html(cache: &mut LandingPageCache, display_url: &str) -> (r: String)
    ensures
        final (cache).spec_cached() == Some(r@),
        old(cache).spec_cached() matches Some(doc) ==> r@ == doc && *final (cache) == *old(
            cache,
        ),
        old(cache).spec_cached() is None ==> r@ == landing_page_spec(display_url@),
{
    match &cache.cached {
        Some(s) => {
            return s.clone();
        },
        None => {},
    }
    let doc = render_landing_page_uncached(display_url);
    cache.cached = Some(doc.clone());
    doc
}

} // verus!
