//! What holds across calls: normalization is idempotent, relative paths
//! and joining undo each other, conversion keeps every file in its own place,
//! and a reported path is one that lies outside of the project.

use vstd::prelude::*;

use crate::fs_path::{
    is_normalized, is_proper_segment, join_slash, normalize_segments, spec_get_path_to, spec_join_path,
    spec_normalize_path, spec_path_to, split_slash, FsPathView,
};
use crate::prepare::{
    alt_item_failure, alt_items_failure, components_failure, entrypoints_failure,
    global_metadata_failure, routes_failure, tree_failure,
    alt_item_converted, components_converted, entrypoint_converted, entrypoints_converted,
    global_metadata_converted, metadata_converted, named_entrypoint_converted, routes_converted,
    tree_converted,
};
use crate::project::spec_project_relative;
use crate::structure::{
    Components, Entrypoint, GlobalMetadata, LoaderTree, Metadata, MetadataItem, MetadataWithAltItem,
};
use crate::fs_path::FsPath;
use crate::for_js::{ComponentsForJs, EntrypointForJs, LoaderTreeForJs};

verus! {

/// No `/` in `s`.
pub open spec fn no_slash(s: Seq<char>) -> bool {
    forall|j: int| 0 <= j < s.len() ==> s[j] != '/'
}

/// No segment holds a `/`.
pub open spec fn all_no_slash(segs: Seq<Seq<char>>) -> bool {
    forall|i: int| 0 <= i < segs.len() ==> #[trigger] no_slash(segs[i])
}

/// Every segment is proper.
pub open spec fn all_proper(segs: Seq<Seq<char>>) -> bool {
    forall|i: int| 0 <= i < segs.len() ==> #[trigger] is_proper_segment(segs[i])
}

proof fn lemma_split_nonempty(s: Seq<char>)
    ensures
        split_slash(s).len() >= 1,
    decreases s.len(),
{
    if s.len() > 0 {
        lemma_split_nonempty(s.drop_last());
    }
}

proof fn lemma_split_no_slash(s: Seq<char>)
    ensures
        all_no_slash(split_slash(s)),
    decreases s.len(),
{
    if s.len() > 0 {
        lemma_split_no_slash(s.drop_last());
        lemma_split_nonempty(s.drop_last());
        let prev = split_slash(s.drop_last());
        if s.last() != '/' {
            assert forall|i: int| 0 <= i < split_slash(s).len() implies #[trigger] no_slash(
                split_slash(s)[i],
            ) by {
                assert(no_slash(prev[i]));
            }
        } else {
            assert forall|i: int| 0 <= i < split_slash(s).len() implies #[trigger] no_slash(
                split_slash(s)[i],
            ) by {
                if i < prev.len() {
                    assert(no_slash(prev[i]));
                }
            }
        }
    }
}

proof fn lemma_join_extend_last(segs: Seq<Seq<char>>, c: char)
    requires
        segs.len() >= 1,
    ensures
        join_slash(segs.update(segs.len() - 1, segs.last().push(c))) == join_slash(segs).push(c),
    decreases segs.len(),
{
    let upd = segs.update(segs.len() - 1, segs.last().push(c));
    if segs.len() > 1 {
        assert(upd.drop_last() =~= segs.drop_last());
        assert(join_slash(upd) =~= join_slash(segs).push(c));
    }
}

proof fn lemma_join_split(s: Seq<char>)
    ensures
        join_slash(split_slash(s)) == s,
    decreases s.len(),
{
    if s.len() > 0 {
        let dl = s.drop_last();
        lemma_join_split(dl);
        lemma_split_nonempty(dl);
        let prev = split_slash(dl);
        if s.last() == '/' {
            let segs = prev.push(Seq::<char>::empty());
            assert(segs.drop_last() =~= prev);
            assert(join_slash(segs) =~= s);
        } else {
            lemma_join_extend_last(prev, s.last());
            assert(dl.push(s.last()) =~= s);
        }
    }
}

proof fn lemma_split_no_slash_suffix(x: Seq<char>, y: Seq<char>)
    requires
        no_slash(y),
    ensures
        split_slash(x + y) == split_slash(x).update(
            split_slash(x).len() - 1,
            split_slash(x).last() + y,
        ),
    decreases y.len(),
{
    lemma_split_nonempty(x);
    if y.len() == 0 {
        assert(x + y =~= x);
        assert(split_slash(x).last() + y =~= split_slash(x).last());
        assert(split_slash(x).update(split_slash(x).len() - 1, split_slash(x).last())
            =~= split_slash(x));
    } else {
        let y0 = y.drop_last();
        assert(no_slash(y0));
        lemma_split_no_slash_suffix(x, y0);
        assert((x + y).drop_last() =~= x + y0);
        assert(y[y.len() - 1] != '/');
        assert((x + y).last() == y.last());
        assert(split_slash(x).last() + y =~= (split_slash(x).last() + y0).push(y.last()));
        assert(split_slash(x + y) =~= split_slash(x).update(
            split_slash(x).len() - 1,
            split_slash(x).last() + y,
        ));
    }
}

proof fn lemma_split_join(segs: Seq<Seq<char>>)
    requires
        segs.len() >= 1,
        all_no_slash(segs),
    ensures
        split_slash(join_slash(segs)) == segs,
    decreases segs.len(),
{
    if segs.len() == 1 {
        assert(no_slash(segs[0]));
        lemma_split_no_slash_suffix(Seq::<char>::empty(), segs[0]);
        assert(Seq::<char>::empty() + segs[0] =~= segs[0]);
        assert(split_slash(Seq::<char>::empty()).last() + segs[0] =~= segs[0]);
        assert(split_slash(join_slash(segs)) =~= segs);
    } else {
        let init = segs.drop_last();
        assert(all_no_slash(init)) by {
            assert forall|i: int| 0 <= i < init.len() implies #[trigger] no_slash(init[i]) by {
                assert(no_slash(segs[i]));
            }
        }
        lemma_split_join(init);
        let j = join_slash(init);
        let js = j.push('/');
        assert(js.drop_last() =~= j);
        assert(split_slash(js) == split_slash(j).push(Seq::<char>::empty()));
        assert(no_slash(segs.last())) by {
            assert(no_slash(segs[segs.len() - 1]));
        }
        lemma_split_no_slash_suffix(js, segs.last());
        assert(j + seq!['/'] + segs.last() =~= js + segs.last());
        assert(Seq::<char>::empty() + segs.last() =~= segs.last());
        assert(split_slash(join_slash(segs)) =~= segs);
    }
}

proof fn lemma_split_concat(x: Seq<char>, y: Seq<char>)
    ensures
        split_slash(x + seq!['/'] + y) == split_slash(x) + split_slash(y),
    decreases y.len(),
{
    let xs = x + seq!['/'];
    assert(xs.drop_last() =~= x);
    if y.len() == 0 {
        assert(xs + y =~= xs);
        assert(split_slash(x) + split_slash(y) =~= split_slash(x).push(Seq::<char>::empty()));
    } else {
        let y0 = y.drop_last();
        lemma_split_concat(x, y0);
        lemma_split_nonempty(y0);
        assert((xs + y).drop_last() =~= xs + y0);
        assert((xs + y).last() == y.last());
        let prev = split_slash(y0);
        if y.last() == '/' {
            assert(split_slash(xs + y) =~= split_slash(x) + split_slash(y));
        } else {
            assert((split_slash(x) + prev).update(
                split_slash(x).len() + prev.len() - 1,
                prev.last().push(y.last()),
            ) =~= split_slash(x) + prev.update(prev.len() - 1, prev.last().push(y.last())));
            assert(split_slash(xs + y) =~= split_slash(x) + split_slash(y));
        }
    }
}

proof fn lemma_normalize_proper(segs: Seq<Seq<char>>)
    requires
        all_proper(segs),
    ensures
        normalize_segments(segs) == Some(segs),
    decreases segs.len(),
{
    if segs.len() > 0 {
        let init = segs.drop_last();
        assert(all_proper(init)) by {
            assert forall|i: int| 0 <= i < init.len() implies #[trigger] is_proper_segment(init[i]) by {
                assert(is_proper_segment(segs[i]));
            }
        }
        lemma_normalize_proper(init);
        assert(is_proper_segment(segs[segs.len() - 1]));
        assert(init.push(segs.last()) =~= segs);
    }
}

proof fn lemma_normalize_output(segs: Seq<Seq<char>>)
    requires
        all_no_slash(segs),
    ensures
        normalize_segments(segs) matches Some(out) ==> all_proper(out) && all_no_slash(out),
    decreases segs.len(),
{
    if segs.len() > 0 {
        let init = segs.drop_last();
        assert(all_no_slash(init)) by {
            assert forall|i: int| 0 <= i < init.len() implies #[trigger] no_slash(init[i]) by {
                assert(no_slash(segs[i]));
            }
        }
        lemma_normalize_output(init);
        assert(no_slash(segs[segs.len() - 1]));
        if let Some(acc) = normalize_segments(init) {
            if let Some(out) = normalize_segments(segs) {
                assert forall|i: int| 0 <= i < out.len() implies #[trigger] is_proper_segment(out[i])
                    && no_slash(out[i]) by {
                    if i < acc.len() {
                        assert(is_proper_segment(acc[i]));
                        assert(no_slash(acc[i]));
                    }
                }
            }
        }
    }
}

/// Normalization gives a path in normal form.
pub proof fn normalize_path_gives_normal_form(s: Seq<char>)
    ensures
        spec_normalize_path(s) matches Some(r) ==> is_normalized(r),
{
    lemma_split_no_slash(s);
    lemma_normalize_output(split_slash(s));
    if let Some(out) = normalize_segments(split_slash(s)) {
        if out.len() > 0 {
            lemma_split_join(out);
        }
    }
}

/// A path in normal form is its own normalization.
pub proof fn normal_form_is_fixed_point(r: Seq<char>)
    requires
        is_normalized(r),
    ensures
        spec_normalize_path(r) == Some(r),
{
    if r.len() == 0 {
        let segs = split_slash(r);
        assert(segs == seq![Seq::<char>::empty()]);
        assert(segs.drop_last() =~= Seq::<Seq<char>>::empty());
        assert(normalize_segments(Seq::<Seq<char>>::empty()) == Some(Seq::<Seq<char>>::empty()));
        assert(segs.last().len() == 0);
        assert(normalize_segments(segs) == Some(Seq::<Seq<char>>::empty()));
        assert(join_slash(Seq::<Seq<char>>::empty()) =~= r);
    } else {
        assert(all_proper(split_slash(r)));
        lemma_normalize_proper(split_slash(r));
        lemma_join_split(r);
    }
}

/// Normalizing twice gives what normalizing once gives.
pub proof fn normalize_path_idempotent(s: Seq<char>)
    ensures
        spec_normalize_path(s) matches Some(r) ==> spec_normalize_path(r) == Some(r),
{
    normalize_path_gives_normal_form(s);
    if let Some(r) = spec_normalize_path(s) {
        normal_form_is_fixed_point(r);
    }
}

proof fn lemma_concat_normalized(x: Seq<char>, y: Seq<char>)
    requires
        x.len() > 0,
        y.len() > 0,
        is_normalized(x),
        is_normalized(y),
    ensures
        is_normalized(x + seq!['/'] + y),
{
    lemma_split_concat(x, y);
    let sx = split_slash(x);
    let sy = split_slash(y);
    assert forall|i: int| 0 <= i < (sx + sy).len() implies #[trigger] is_proper_segment(
        (sx + sy)[i],
    ) by {
        if i < sx.len() {
            assert(is_proper_segment(sx[i]));
        } else {
            assert(is_proper_segment(sy[i - sx.len()]));
        }
    }
}

/// The path of a file relative to a directory is in normal form where both
/// paths are.
pub proof fn relative_path_is_normalized(base: Seq<char>, inner: Seq<char>)
    requires
        is_normalized(base),
        is_normalized(inner),
    ensures
        spec_path_to(base, inner) matches Some(rel) ==> is_normalized(rel),
{
    if let Some(rel) = spec_path_to(base, inner) {
        if base.len() > 0 && inner.len() > base.len() {
            assert(inner =~= base + seq!['/'] + rel);
            if rel.len() == 0 {
                assert(inner.drop_last() =~= base);
                let segs = split_slash(inner);
                assert(segs == split_slash(base).push(Seq::<char>::empty()));
                assert(!is_proper_segment(segs[segs.len() - 1]));
            }
            lemma_split_concat(base, rel);
            let sb = split_slash(base);
            let sr = split_slash(rel);
            assert forall|i: int| 0 <= i < sr.len() implies #[trigger] is_proper_segment(sr[i]) by {
                assert(sr[i] == split_slash(inner)[sb.len() + i]);
                assert(is_proper_segment(split_slash(inner)[sb.len() + i]));
            }
        } else if base.len() > 0 {
            assert(rel.len() == 0);
        }
    }
}

/// Joining onto a path the path of a file relative to it gives the file
/// back, for paths in normal form.
pub proof fn join_undoes_path_to(base: Seq<char>, inner: Seq<char>)
    requires
        is_normalized(base),
        is_normalized(inner),
    ensures
        spec_path_to(base, inner) matches Some(rel) ==> spec_join_path(base, rel) == Some(inner),
{
    if let Some(rel) = spec_path_to(base, inner) {
        if base.len() == 0 {
            normal_form_is_fixed_point(inner);
        } else if inner.len() == base.len() {
            assert(inner =~= base);
            normal_form_is_fixed_point(base);
        } else {
            assert(inner =~= base + seq!['/'] + rel);
            if rel.len() == 0 {
                assert(inner.drop_last() =~= base);
                let segs = split_slash(inner);
                assert(segs == split_slash(base).push(Seq::<char>::empty()));
                assert(!is_proper_segment(segs[segs.len() - 1]));
            }
            normal_form_is_fixed_point(inner);
        }
    }
}

/// The path of a file relative to a directory, as `fs_path_to_path` gives
/// it, joined onto that directory's path, gives the file's path back: across
/// file systems there is no relative path.
pub proof fn join_undoes_get_path_to(base: FsPathView, inner: FsPathView)
    requires
        base.wf(),
        inner.wf(),
    ensures
        spec_get_path_to(base, inner) matches Some(rel) ==> base.fs == inner.fs && spec_join_path(
            base.path,
            rel,
        ) == Some(inner.path),
{
    join_undoes_path_to(base.path, inner.path);
}

/// A path joined onto a directory's path is found again as the path
/// relative to that directory, for paths in normal form.
pub proof fn path_to_undoes_join(base: Seq<char>, rel: Seq<char>)
    requires
        is_normalized(base),
        is_normalized(rel),
    ensures
        spec_join_path(base, rel) matches Some(joined) && spec_path_to(base, joined) == Some(rel),
{
    if base.len() == 0 {
        normal_form_is_fixed_point(rel);
    } else if rel.len() == 0 {
        normal_form_is_fixed_point(base);
        assert(base.take(base.len() as int) =~= base);
        assert(rel =~= Seq::<char>::empty());
    } else {
        let joined = base + seq!['/'] + rel;
        lemma_concat_normalized(base, rel);
        normal_form_is_fixed_point(joined);
        assert(joined.take(base.len() as int) =~= base);
        assert(joined.skip(base.len() as int + 1) =~= rel);
    }
}

proof fn lemma_routes_keep_names(pp: FsPathView, rs: Seq<(String, LoaderTree)>, os: Seq<(String, LoaderTreeForJs)>)
    requires
        routes_converted(pp, rs, os),
    ensures
        os.len() == rs.len(),
        forall|i: int| 0 <= i < rs.len() ==> #[trigger] os[i].0@ == rs[i].0@,
    decreases rs.len(),
{
    if rs.len() > 0 {
        lemma_routes_keep_names(pp, rs.drop_last(), os.drop_last());
        assert forall|i: int| 0 <= i < rs.len() implies #[trigger] os[i].0@ == rs[i].0@ by {
            if i < rs.len() - 1 {
                assert(os.drop_last()[i] == os[i]);
                assert(rs.drop_last()[i] == rs[i]);
            }
        }
    }
}

/// A converted loader tree keeps the segment, and the names of the parallel
/// routes in their order.
pub proof fn converted_tree_keeps_route_names(pp: FsPathView, t: LoaderTree, o: LoaderTreeForJs)
    requires
        tree_converted(pp, t, o),
    ensures
        o.segment@ == t.segment@,
        o.parallel_routes@.len() == t.parallel_routes@.len(),
        forall|i: int|
            0 <= i < t.parallel_routes@.len() ==> #[trigger] o.parallel_routes@[i].0@
                == t.parallel_routes@[i].0@,
{
    lemma_routes_keep_names(pp, t.parallel_routes@, o.parallel_routes@);
}

/// No name occurs twice among the named items of `s`.
pub open spec fn names_distinct<T>(s: Seq<(String, T)>) -> bool {
    forall|i: int, j: int|
        #![trigger s[i], s[j]]
        0 <= i < s.len() && 0 <= j < s.len() && i != j ==> s[i].0@ != s[j].0@
}

/// Converting a loader tree keeps the names of its parallel routes
/// distinct where they were.
pub proof fn converted_tree_keeps_names_distinct(pp: FsPathView, t: LoaderTree, o: LoaderTreeForJs)
    requires
        tree_converted(pp, t, o),
        names_distinct(t.parallel_routes@),
    ensures
        names_distinct(o.parallel_routes@),
{
    converted_tree_keeps_route_names(pp, t, o);
    let rs = t.parallel_routes@;
    let os = o.parallel_routes@;
    assert forall|i: int, j: int|
        #![trigger os[i], os[j]]
        0 <= i < os.len() && 0 <= j < os.len() && i != j implies os[i].0@ != os[j].0@ by {
        assert(os[i].0@ == rs[i].0@);
        assert(os[j].0@ == rs[j].0@);
        assert(rs[i].0@ != rs[j].0@);
    }
}

/// Converted entrypoints keep their app paths, in order, and so keep them
/// distinct where they were.
pub proof fn converted_entrypoints_keep_names(
    pp: FsPathView,
    s: Seq<(String, Entrypoint)>,
    r: Seq<(String, EntrypointForJs)>,
)
    requires
        entrypoints_converted(pp, s, r),
    ensures
        r.len() == s.len(),
        forall|i: int| 0 <= i < s.len() ==> #[trigger] r[i].0@ == s[i].0@,
        names_distinct(s) ==> names_distinct(r),
{
    assert forall|i: int| 0 <= i < s.len() implies #[trigger] r[i].0@ == s[i].0@ by {
        assert(named_entrypoint_converted(pp, s[i], r[i]));
    }
    if names_distinct(s) {
        assert forall|i: int, j: int|
            #![trigger r[i], r[j]]
            0 <= i < r.len() && 0 <= j < r.len() && i != j implies r[i].0@ != r[j].0@ by {
            assert(named_entrypoint_converted(pp, s[i], r[i]));
            assert(named_entrypoint_converted(pp, s[j], r[j]));
            assert(s[i].0@ != s[j].0@);
        }
    }
}

/// The project directory relative to the root holds no platform separator
/// other than `/`.
pub proof fn project_relative_has_no_separator(root: Seq<char>, project: Seq<char>, separator: char)
    requires
        separator != '/',
    ensures
        forall|i: int|
            0 <= i < spec_project_relative(root, project, separator).len() ==> #[trigger] spec_project_relative(
                root,
                project,
                separator,
            )[i] != separator,
{
}

// ---------------------------------------------------------------------------
// Every file of the input comes out in its own place, made relative
// ---------------------------------------------------------------------------

/// `s` is the path of the file `p` relative to the project path `pp`.
pub open spec fn is_relative_path_of(pp: FsPathView, p: FsPath, s: String) -> bool {
    spec_get_path_to(pp, p@) == Some(s@)
}

/// `b` is present exactly where `a` is, and then holds the path of `a`
/// relative to the project.
pub open spec fn same_slot(pp: FsPathView, a: Option<FsPath>, b: Option<String>) -> bool {
    match a {
        None => b is None,
        Some(p) => b matches Some(s) && is_relative_path_of(pp, p, s),
    }
}

/// `b` is the metadata file `a`, of the same kind, by its path relative to
/// the project.
pub open spec fn same_item(pp: FsPathView, a: MetadataItem<FsPath>, b: MetadataItem<String>) -> bool {
    match a {
        MetadataItem::Static { path } => b matches MetadataItem::Static { path: s } && is_relative_path_of(pp, path, s),
        MetadataItem::Dynamic { path } => b matches MetadataItem::Dynamic { path: s } && is_relative_path_of(pp, path, s),
    }
}

/// `b` is present exactly where `a` is, and then is the same metadata file.
pub open spec fn same_item_slot(pp: FsPathView, a: Option<MetadataItem<FsPath>>, b: Option<MetadataItem<String>>) -> bool {
    match a {
        None => b is None,
        Some(x) => b matches Some(y) && same_item(pp, x, y),
    }
}

/// `b` is the image file `a`, of the same kind, with its path and its
/// alternative-text path (present exactly where `a` has one) relative to the
/// project.
pub open spec fn same_image(pp: FsPathView, a: MetadataWithAltItem<FsPath>, b: MetadataWithAltItem<String>) -> bool {
    match a {
        MetadataWithAltItem::Static { path, alt_path } => b matches MetadataWithAltItem::Static {
            path: s,
            alt_path: t,
        } && is_relative_path_of(pp, path, s) && same_slot(pp, alt_path, t),
        MetadataWithAltItem::Dynamic { path } => b matches MetadataWithAltItem::Dynamic { path: s }
            && is_relative_path_of(pp, path, s),
    }
}

/// `b` lists the images of `a`, one for one and in the same order.
pub open spec fn same_images(pp: FsPathView, a: Seq<MetadataWithAltItem<FsPath>>, b: Seq<MetadataWithAltItem<String>>) -> bool {
    &&& b.len() == a.len()
    &&& forall|i: int| 0 <= i < a.len() ==> #[trigger] same_image(pp, a[i], b[i])
}

proof fn lemma_same_images(pp: FsPathView, a: Seq<MetadataWithAltItem<FsPath>>, b: Seq<MetadataWithAltItem<String>>)
    requires
        b.len() == a.len(),
        forall|i: int| 0 <= i < a.len() ==> #[trigger] alt_item_converted(pp, a[i], b[i]),
    ensures
        same_images(pp, a, b),
{
    assert forall|i: int| 0 <= i < a.len() implies #[trigger] same_image(pp, a[i], b[i]) by {
        assert(alt_item_converted(pp, a[i], b[i]));
    }
}

/// Converting metadata keeps each list of images in its own place, one for
/// one and in order, and the sitemap in its own.
pub proof fn converted_metadata_keeps_each_file(pp: FsPathView, m: Metadata<FsPath>, r: Metadata<String>)
    requires
        metadata_converted(pp, m, r),
    ensures
        same_images(pp, m.icon@, r.icon@),
        same_images(pp, m.apple@, r.apple@),
        same_images(pp, m.twitter@, r.twitter@),
        same_images(pp, m.open_graph@, r.open_graph@),
        same_item_slot(pp, m.sitemap, r.sitemap),
{
    lemma_same_images(pp, m.icon@, r.icon@);
    lemma_same_images(pp, m.apple@, r.apple@);
    lemma_same_images(pp, m.twitter@, r.twitter@);
    lemma_same_images(pp, m.open_graph@, r.open_graph@);
}

/// Converting components keeps each special file in its own slot, present
/// exactly where it was, and each metadata file in its own place.
pub proof fn converted_components_keep_each_file(pp: FsPathView, c: Components, r: ComponentsForJs)
    requires
        components_converted(pp, c, r),
    ensures
        same_slot(pp, c.page, r.page),
        same_slot(pp, c.layout, r.layout),
        same_slot(pp, c.error, r.error),
        same_slot(pp, c.loading, r.loading),
        same_slot(pp, c.template, r.template),
        same_slot(pp, c.not_found, r.not_found),
        same_slot(pp, c.default, r.default),
        same_slot(pp, c.route, r.route),
        same_images(pp, c.metadata.icon@, r.metadata.icon@),
        same_images(pp, c.metadata.apple@, r.metadata.apple@),
        same_images(pp, c.metadata.twitter@, r.metadata.twitter@),
        same_images(pp, c.metadata.open_graph@, r.metadata.open_graph@),
        same_item_slot(pp, c.metadata.sitemap, r.metadata.sitemap),
{
    converted_metadata_keeps_each_file(pp, c.metadata, r.metadata);
}

/// Converting app-wide metadata keeps the favicon, the robots file and the
/// manifest each in its own slot, present exactly where it was.
pub proof fn converted_global_metadata_keeps_each_file(
    pp: FsPathView,
    g: GlobalMetadata<FsPath>,
    r: GlobalMetadata<String>,
)
    requires
        global_metadata_converted(pp, g, r),
    ensures
        same_item_slot(pp, g.favicon, r.favicon),
        same_item_slot(pp, g.robots, r.robots),
        same_item_slot(pp, g.manifest, r.manifest),
{
}

/// Converting a loader tree, leaf or not, keeps its segment, every
/// component and app-wide metadata file in its own place, and its parallel
/// routes by name and in order, each converted as a loader tree.
pub proof fn converted_tree_keeps_every_file(pp: FsPathView, t: LoaderTree, o: LoaderTreeForJs)
    requires
        tree_converted(pp, t, o),
    ensures
        o.segment@ == t.segment@,
        same_slot(pp, t.components.page, o.components.page),
        same_slot(pp, t.components.layout, o.components.layout),
        same_slot(pp, t.components.error, o.components.error),
        same_slot(pp, t.components.loading, o.components.loading),
        same_slot(pp, t.components.template, o.components.template),
        same_slot(pp, t.components.not_found, o.components.not_found),
        same_slot(pp, t.components.default, o.components.default),
        same_slot(pp, t.components.route, o.components.route),
        same_images(pp, t.components.metadata.icon@, o.components.metadata.icon@),
        same_images(pp, t.components.metadata.apple@, o.components.metadata.apple@),
        same_images(pp, t.components.metadata.twitter@, o.components.metadata.twitter@),
        same_images(pp, t.components.metadata.open_graph@, o.components.metadata.open_graph@),
        same_item_slot(pp, t.components.metadata.sitemap, o.components.metadata.sitemap),
        same_item_slot(pp, t.global_metadata.favicon, o.global_metadata.favicon),
        same_item_slot(pp, t.global_metadata.robots, o.global_metadata.robots),
        same_item_slot(pp, t.global_metadata.manifest, o.global_metadata.manifest),
        o.parallel_routes@.len() == t.parallel_routes@.len(),
        forall|i: int|
            0 <= i < t.parallel_routes@.len() ==> #[trigger] o.parallel_routes@[i].0@
                == t.parallel_routes@[i].0@ && tree_converted(
                pp,
                t.parallel_routes@[i].1,
                o.parallel_routes@[i].1,
            ),
{
    converted_components_keep_each_file(pp, t.components, o.components);
    converted_global_metadata_keeps_each_file(pp, t.global_metadata, o.global_metadata);
    lemma_routes_children(pp, t.parallel_routes@, o.parallel_routes@);
}

proof fn lemma_routes_children(pp: FsPathView, rs: Seq<(String, LoaderTree)>, os: Seq<(String, LoaderTreeForJs)>)
    requires
        routes_converted(pp, rs, os),
    ensures
        os.len() == rs.len(),
        forall|i: int|
            0 <= i < rs.len() ==> #[trigger] os[i].0@ == rs[i].0@ && tree_converted(pp, rs[i].1, os[i].1),
    decreases rs.len(),
{
    if rs.len() > 0 {
        lemma_routes_children(pp, rs.drop_last(), os.drop_last());
        assert forall|i: int| 0 <= i < rs.len() implies #[trigger] os[i].0@ == rs[i].0@ && tree_converted(
            pp,
            rs[i].1,
            os[i].1,
        ) by {
            if i < rs.len() - 1 {
                assert(os.drop_last()[i] == os[i]);
                assert(rs.drop_last()[i] == rs[i]);
            }
        }
    }
}

/// `x` keeps the app path of `e`: a page keeps its loader tree, converted as
/// a loader tree with every app-wide metadata file in its own slot; a route
/// handler, and a metadata file of either kind, become a route whose path is
/// the file's path relative to the project.
pub open spec fn entry_keeps_every_file(pp: FsPathView, e: (String, Entrypoint), x: (String, EntrypointForJs)) -> bool {
    &&& x.0@ == e.0@
    &&& match e.1 {
        Entrypoint::AppPage { loader_tree } => x.1 matches EntrypointForJs::AppPage { loader_tree: o }
            && tree_converted(pp, loader_tree, o) && same_item_slot(
            pp,
            loader_tree.global_metadata.favicon,
            o.global_metadata.favicon,
        ) && same_item_slot(pp, loader_tree.global_metadata.robots, o.global_metadata.robots)
            && same_item_slot(pp, loader_tree.global_metadata.manifest, o.global_metadata.manifest),
        Entrypoint::AppRoute { path } => x.1 matches EntrypointForJs::AppRoute { path: y }
            && is_relative_path_of(pp, path, y),
        Entrypoint::AppMetadata { metadata } => x.1 matches EntrypointForJs::AppRoute { path: y }
            && is_relative_path_of(pp, metadata.spec_path(), y),
    }
}

/// Converted entrypoints keep each app path, one for one and in order, with
/// every file of each kept as [`entry_keeps_every_file`] says.
pub proof fn converted_entrypoints_keep_every_file(
    pp: FsPathView,
    s: Seq<(String, Entrypoint)>,
    r: Seq<(String, EntrypointForJs)>,
)
    requires
        entrypoints_converted(pp, s, r),
    ensures
        r.len() == s.len(),
        forall|i: int| 0 <= i < s.len() ==> #[trigger] entry_keeps_every_file(pp, s[i], r[i]),
{
    assert forall|i: int| 0 <= i < s.len() implies #[trigger] entry_keeps_every_file(pp, s[i], r[i]) by {
        assert(named_entrypoint_converted(pp, s[i], r[i]));
        assert(entrypoint_converted(pp, s[i].1, r[i].1));
        if let Entrypoint::AppPage { loader_tree } = s[i].1 {
            if let EntrypointForJs::AppPage { loader_tree: o } = r[i].1 {
                converted_tree_keeps_every_file(pp, loader_tree, o);
            }
        }
    }
}

// ---------------------------------------------------------------------------
// A reported path is a file of the input that lies outside of the project
// ---------------------------------------------------------------------------

/// `v` is the path of `o`, where there is one.
pub open spec fn slot_holds(o: Option<FsPath>, v: FsPathView) -> bool {
    o matches Some(p) && p@ == v
}

/// `v` is the path of the metadata file in `o`, where there is one.
pub open spec fn item_slot_holds(o: Option<MetadataItem<FsPath>>, v: FsPathView) -> bool {
    o matches Some(m) && m.spec_path()@ == v
}

/// `v` is the path of the image `m` or of its alternative text.
pub open spec fn image_holds(m: MetadataWithAltItem<FsPath>, v: FsPathView) -> bool {
    match m {
        MetadataWithAltItem::Static { path, alt_path } => path@ == v || slot_holds(alt_path, v),
        MetadataWithAltItem::Dynamic { path } => path@ == v,
    }
}

/// `v` is a path of one of the images in `s`.
pub open spec fn images_hold(s: Seq<MetadataWithAltItem<FsPath>>, v: FsPathView) -> bool {
    exists|i: int| 0 <= i < s.len() && #[trigger] image_holds(s[i], v)
}

/// `v` is the path of one of the files of `c` that conversion looks at.
pub open spec fn components_hold(c: Components, v: FsPathView) -> bool {
    ||| slot_holds(c.page, v)
    ||| slot_holds(c.layout, v)
    ||| slot_holds(c.error, v)
    ||| slot_holds(c.loading, v)
    ||| slot_holds(c.template, v)
    ||| slot_holds(c.not_found, v)
    ||| slot_holds(c.default, v)
    ||| slot_holds(c.route, v)
    ||| images_hold(c.metadata.icon@, v)
    ||| images_hold(c.metadata.apple@, v)
    ||| images_hold(c.metadata.twitter@, v)
    ||| images_hold(c.metadata.open_graph@, v)
    ||| item_slot_holds(c.metadata.sitemap, v)
}

/// `v` is the path of one of the app-wide metadata files of `g`.
pub open spec fn global_metadata_holds(g: GlobalMetadata<FsPath>, v: FsPathView) -> bool {
    item_slot_holds(g.favicon, v) || item_slot_holds(g.robots, v) || item_slot_holds(g.manifest, v)
}

proof fn lemma_images_failure(pp: FsPathView, s: Seq<MetadataWithAltItem<FsPath>>)
    ensures
        alt_items_failure(pp, s) matches Some(v) ==> spec_get_path_to(pp, v) is None && images_hold(s, v),
    decreases s.len(),
{
    if s.len() > 0 {
        let init = s.drop_last();
        lemma_images_failure(pp, init);
        if let Some(v) = alt_items_failure(pp, s) {
            if alt_items_failure(pp, init) is Some {
                let i = choose|i: int| 0 <= i < init.len() && #[trigger] image_holds(init[i], v);
                assert(s[i] == init[i]);
                assert(image_holds(s[i], v));
            } else {
                assert(alt_item_failure(pp, s.last()) == Some(v));
                assert(image_holds(s[s.len() - 1], v));
            }
        }
    }
}

/// Where converting components fails, the path it reports is one of their
/// files, and it has no path relative to the project.
pub proof fn components_failure_is_outside_file(pp: FsPathView, c: Components)
    ensures
        components_failure(pp, c) matches Some(v) ==> spec_get_path_to(pp, v) is None
            && components_hold(c, v),
{
    lemma_images_failure(pp, c.metadata.icon@);
    lemma_images_failure(pp, c.metadata.apple@);
    lemma_images_failure(pp, c.metadata.twitter@);
    lemma_images_failure(pp, c.metadata.open_graph@);
}

/// Where converting app-wide metadata fails, the path it reports is one of
/// its files, and it has no path relative to the project.
pub proof fn global_metadata_failure_is_outside_file(pp: FsPathView, g: GlobalMetadata<FsPath>)
    ensures
        global_metadata_failure(pp, g) matches Some(v) ==> spec_get_path_to(pp, v) is None
            && global_metadata_holds(g, v),
{
}

/// Where converting a loader tree fails, the path it reports has no path
/// relative to the project.
pub proof fn tree_failure_is_outside(pp: FsPathView, t: LoaderTree)
    ensures
        tree_failure(pp, t) matches Some(v) ==> spec_get_path_to(pp, v) is None,
    decreases t,
{
    lemma_routes_failure_outside(pp, t.parallel_routes@);
    components_failure_is_outside_file(pp, t.components);
    global_metadata_failure_is_outside_file(pp, t.global_metadata);
}

proof fn lemma_routes_failure_outside(pp: FsPathView, rs: Seq<(String, LoaderTree)>)
    ensures
        routes_failure(pp, rs) matches Some(v) ==> spec_get_path_to(pp, v) is None,
    decreases rs,
{
    if rs.len() > 0 {
        lemma_routes_failure_outside(pp, rs.drop_last());
        tree_failure_is_outside(pp, rs[rs.len() - 1].1);
    }
}

/// Where converting entrypoints fails, the path it reports has no path
/// relative to the project.
pub proof fn entrypoints_failure_is_outside(pp: FsPathView, s: Seq<(String, Entrypoint)>)
    ensures
        entrypoints_failure(pp, s) matches Some(v) ==> spec_get_path_to(pp, v) is None,
    decreases s.len(),
{
    if s.len() > 0 {
        entrypoints_failure_is_outside(pp, s.drop_last());
        if let Entrypoint::AppPage { loader_tree } = s.last().1 {
            tree_failure_is_outside(pp, loader_tree);
        }
    }
}

} // verus!
