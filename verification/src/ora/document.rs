//! Whole OpenRaster documents: taking an archive apart into its parsed
//! stack and layer parts, and putting one together.

use vstd::prelude::*;
use vstd::string::StrSliceExecFns;
use vstd::utf8::{decode_utf8, encode_utf8, valid_utf8};

use crate::text::trimmed;
use crate::tree::LayerTree;

use super::archive::{
    entry_names, entry_view, utf8_text, zip_archive, zip_entry, zip_entry_read, zip_finish, zip_new, zip_put, zip_small,
    zip_total, zip_written, ArchiveWriter, ZipEntries, ZipFault,
};
use super::error::OraError;
use super::import::check_mimetype;
use super::stack::{stack_result, OraImage, OraNode};
use super::writer::{parts_view, stack_parts, stack_text, stack_xml, root_listing, OraLayerExport, OraPart, OraWriter};
use super::xml::{parse_stack, xml_events};

verus! {

/// The `src` of every layer node of `nodes`, in pre-order.
pub open spec fn layer_srcs(nodes: Seq<OraNode>) -> Seq<Seq<char>>
    decreases nodes,
{
    if nodes.len() == 0 {
        Seq::empty()
    } else {
        let head = match nodes[0] {
            OraNode::Layer(l) => seq![l.src@],
            OraNode::Stack(s) => {
                proof {
                    assert(decreases_to!(nodes => nodes[0]));
                }
                layer_srcs(s.children@)
            },
        };
        head + layer_srcs(nodes.drop_first())
    }
}

/// The text of an entry read: present, readable and valid UTF-8.
pub open spec fn entry_text(r: Result<Option<Seq<u8>>, Seq<char>>) -> Option<Seq<char>> {
    match r {
        Ok(Some(b)) => if valid_utf8(b) {
            Some(decode_utf8(b))
        } else {
            None
        },
        _ => None,
    }
}

/// The bytes of an entry read, `None` where there are none.
pub open spec fn entry_part(r: Result<Option<Seq<u8>>, Seq<char>>) -> Option<Seq<u8>> {
    match r {
        Ok(Some(b)) => Some(b),
        _ => None,
    }
}

/// Each part by its view.
pub open spec fn part_views(parts: Seq<Option<Vec<u8>>>) -> Seq<Option<Seq<u8>>> {
    parts.map_values(|p: Option<Vec<u8>>| match p {
        Some(v) => Some(v@),
        None => None,
    })
}

/// The text of entry `name` of the archive `bytes` (see [`entry_text`]),
/// or the archive's error.
fn read_text_entry(bytes: &[u8], name: &str) -> (r: Result<Option<String>, String>)
    ensures
        match zip_entry_read(bytes@, name@) {
            Err(m) => r matches Err(e) && e@ == m,
            Ok(_) => r matches Ok(t) && match t {
                Some(s) => entry_text(zip_entry_read(bytes@, name@)) == Some(s@),
                None => entry_text(zip_entry_read(bytes@, name@)) is None,
            },
        },
{
    match zip_entry(bytes, name) {
        Err(m) => Err(m),
        Ok(None) => Ok(None),
        Ok(Some(v)) => Ok(utf8_text(v)),
    }
}

/// Append the parts of the layer nodes of `nodes`, in pre-order.
fn collect_parts(bytes: &[u8], nodes: &Vec<OraNode>, out: &mut Vec<Option<Vec<u8>>>)
    ensures
        part_views(final(out)@) == part_views(old(out)@) + layer_srcs(nodes@).map_values(
            |src: Seq<char>| entry_part(zip_entry_read(bytes@, src)),
        ),
    decreases nodes,
{
    let ghost o0 = part_views(out@);
    let ghost f = |src: Seq<char>| entry_part(zip_entry_read(bytes@, src));
    let mut i: usize = 0;
    assert(nodes@.subrange(0, nodes@.len() as int) =~= nodes@);
    assert(part_views(out@) =~= o0 + Seq::<Seq<char>>::empty().map_values(f));
    while i < nodes.len()
        invariant
            i <= nodes@.len(),
            f == (|src: Seq<char>| entry_part(zip_entry_read(bytes@, src))),
            part_views(out@) + layer_srcs(nodes@.subrange(i as int, nodes@.len() as int)).map_values(f) == o0
                + layer_srcs(nodes@).map_values(f),
        decreases nodes@.len() - i,
    {
        let ghost rest = nodes@.subrange(i as int, nodes@.len() as int);
        let ghost before = part_views(out@);
        proof {
            assert(rest[0] == nodes@[i as int]);
            assert(rest.drop_first() =~= nodes@.subrange(i + 1, nodes@.len() as int));
        }
        match &nodes[i] {
            OraNode::Layer(l) => {
                let part = match zip_entry(bytes, l.src.as_str()) {
                    Ok(Some(v)) => Some(v),
                    _ => None,
                };
                out.push(part);
                proof {
                    assert(part_views(out@) =~= before.push(f(l.src@)));
                    assert(layer_srcs(rest) == seq![l.src@] + layer_srcs(rest.drop_first()));
                    assert((seq![l.src@] + layer_srcs(rest.drop_first())).map_values(f) =~= seq![f(l.src@)]
                        + layer_srcs(rest.drop_first()).map_values(f));
                    assert(before + layer_srcs(rest).map_values(f) =~= before.push(f(l.src@)) + layer_srcs(
                        rest.drop_first(),
                    ).map_values(f));
                }
            },
            OraNode::Stack(s) => {
                assert(decreases_to!(nodes => nodes@[i as int]));
                collect_parts(bytes, &s.children, out);
                proof {
                    let inner = layer_srcs(s.children@);
                    assert(layer_srcs(rest) == inner + layer_srcs(rest.drop_first()));
                    assert((inner + layer_srcs(rest.drop_first())).map_values(f) =~= inner.map_values(f)
                        + layer_srcs(rest.drop_first()).map_values(f));
                    assert(before + layer_srcs(rest).map_values(f) =~= part_views(out@) + layer_srcs(
                        rest.drop_first(),
                    ).map_values(f));
                }
            },
        }
        i = i + 1;
    }
    assert(layer_srcs(nodes@.subrange(nodes@.len() as int, nodes@.len() as int)) =~= Seq::<Seq<char>>::empty());
    assert(part_views(out@) + Seq::<Seq<char>>::empty().map_values(f) =~= part_views(out@));
}

/// Stateless reader that imports OpenRaster documents.
pub struct OraReader;

impl OraReader {
    /// Take an `.ora` archive held in memory apart: check its `mimetype`,
    /// parse its `stack.xml`, and read the part of every layer node
    /// (`None` where it is missing or unreadable), in pre-order; the parse
    /// is [`parse_stack`]'s. The layer parts are PNG images for the caller
    /// to decode.
    pub fn from_bytes(bytes: &[u8]) -> (r: Result<(OraImage, Vec<Option<Vec<u8>>>), OraError>)
        ensures
            match zip_entry_read(bytes@, "mimetype"@) {
                Err(m) => r matches Err(OraError::Zip(e)) && e@ == m,
                Ok(_) => if !(entry_text(zip_entry_read(bytes@, "mimetype"@)) matches Some(t) && trimmed(t)
                    == "image/openraster"@) {
                    r matches Err(OraError::BadMimetype)
                } else if entry_text(zip_entry_read(bytes@, "stack.xml"@)) is None {
                    r matches Err(OraError::MissingStackXml)
                } else {
                    &&& stack_result(
                        xml_events(entry_text(zip_entry_read(bytes@, "stack.xml"@))->0),
                        match r {
                            Ok((img, _)) => Ok(img),
                            Err(e) => Err(e),
                        },
                    )
                    &&& r matches Ok((img, parts)) ==> part_views(parts@) == layer_srcs(img.children@).map_values(
                        |src: Seq<char>| entry_part(zip_entry_read(bytes@, src)),
                    )
                },
            },
    {
        let mimetype = match read_text_entry(bytes, "mimetype") {
            Err(m) => return Err(OraError::Zip(m)),
            Ok(t) => t,
        };
        let checked = match &mimetype {
            Some(s) => check_mimetype(Some(s.as_str())),
            None => check_mimetype(None),
        };
        if checked.is_err() {
            return Err(OraError::BadMimetype);
        }
        let xml = match read_text_entry(bytes, "stack.xml") {
            Ok(Some(s)) => s,
            _ => return Err(OraError::MissingStackXml),
        };
        let image = match parse_stack(xml.as_str()) {
            Ok(img) => img,
            Err(e) => return Err(e),
        };
        let mut parts: Vec<Option<Vec<u8>>> = Vec::new();
        proof {
            assert(part_views(parts@) =~= Seq::<Option<Seq<u8>>>::empty());
        }
        collect_parts(bytes, &image.children, &mut parts);
        proof {
            let f = |src: Seq<char>| entry_part(zip_entry_read(bytes@, src));
            assert(Seq::<Option<Seq<u8>>>::empty() + layer_srcs(image.children@).map_values(f) =~= layer_srcs(
                image.children@,
            ).map_values(f));
        }
        Ok((image, parts))
    }
}

/// The entries of an `.ora` archive: the `mimetype` (stored first), the
/// `stack.xml` text (deflated), each layer part (stored), and the merged
/// image (stored).
pub open spec fn ora_entries(xml: Seq<char>, parts: Seq<(Seq<char>, Seq<u8>)>, merged_png: Seq<u8>) -> ZipEntries {
    seq![("mimetype"@, true, encode_utf8("image/openraster"@)), ("stack.xml"@, false, encode_utf8(xml))]
        + parts.map_values(|p: (Seq<char>, Seq<u8>)| (p.0, true, p.1)) + seq![("mergedimage.png"@, true, merged_png)]
}

/// The library error for a failed entry.
fn fault_error(f: ZipFault) -> (r: OraError)
    ensures
        match f {
            ZipFault::Zip(m) => r matches OraError::Zip(e) && e@ == m@,
            ZipFault::Io(m) => r matches OraError::Io(e) && e@ == m@,
        },
{
    match f {
        ZipFault::Zip(m) => OraError::Zip(m),
        ZipFault::Io(m) => OraError::Io(m),
    }
}

/// The archive writer cannot fail on `entries`: their names are distinct
/// and short, and the archive is small (see [`zip_small`]).
pub open spec fn archive_fits(entries: ZipEntries) -> bool {
    &&& entry_names(entries).no_duplicates()
    &&& forall|i: int| 0 <= i < entries.len() ==> (#[trigger] entries[i]).0.len() < 0x1000
    &&& zip_small(entries)
}

/// A prefix of a list of entries holds no more data than the list.
proof fn lemma_total_prefix(entries: ZipEntries, k: int)
    requires
        0 <= k <= entries.len(),
    ensures
        zip_total(entries.take(k)) <= zip_total(entries),
    decreases entries.len() - k,
{
    if k < entries.len() {
        lemma_total_prefix(entries, k + 1);
        assert(entries.take(k + 1).drop_last() =~= entries.take(k));
    } else {
        assert(entries.take(k) =~= entries);
    }
}

/// Writing entry `k` after the first `k` entries of a fitting archive
/// meets the writer's conditions for success.
proof fn lemma_put_fits(entries: ZipEntries, k: int)
    requires
        archive_fits(entries),
        0 <= k < entries.len(),
    ensures
        !entry_names(entries.take(k)).contains(entries[k].0),
        entries[k].0.len() < 0x1000,
        zip_small(entries.take(k).push(entries[k])),
        entries.take(k).push(entries[k]) == entries.take(k + 1),
{
    assert(entries.take(k).push(entries[k]) =~= entries.take(k + 1));
    lemma_total_prefix(entries, k + 1);
    if entry_names(entries.take(k)).contains(entries[k].0) {
        let j = choose|j: int| 0 <= j < entry_names(entries.take(k)).len() && entry_names(entries.take(k))[j]
            == entries[k].0;
        assert(entry_names(entries)[j] == entry_names(entries)[k]);
    }
}

/// Adding an entry under a new name keeps the names distinct.
proof fn lemma_push_name(entries: ZipEntries, e: (Seq<char>, bool, Seq<u8>))
    requires
        entry_names(entries).no_duplicates(),
        !entry_names(entries).contains(e.0),
    ensures
        entry_names(entries.push(e)).no_duplicates(),
{
    let a = entry_names(entries);
    let b = entry_names(entries.push(e));
    assert(b =~= a.push(e.0));
    assert forall|i: int, j: int| 0 <= i < b.len() && 0 <= j < b.len() && i != j implies b[i] != b[j] by {
        if i == a.len() {
            assert(a.contains(b[j]));
        } else if j == a.len() {
            assert(a.contains(b[i]));
        }
    }
}

impl OraWriter {
    /// Serialise `tree` to OpenRaster bytes: the `stack.xml` of `tree` as
    /// `ex` describes its layers (see [`stack_text`]), the layer parts it
    /// refers to, and `merged_png` as the merged image. It succeeds whenever
    /// the entries fit the archive (distinct, short names; a small
    /// archive); a failure of the archive writer is passed on. Reading any
    /// entry of the result back by its name gives the bytes written there.
    pub fn to_bytes(tree: &LayerTree, ex: &Vec<OraLayerExport>, merged_png: &[u8]) -> (r: Result<Vec<u8>, OraError>)
        requires
            tree.wf(),
            tree.spec_height_bound() + 3 <= usize::MAX,
            root_listing(tree, ex@).2 <= usize::MAX,
        ensures
            match r {
                Ok(v) => {
                    let e = ora_entries(stack_text(tree, ex@), stack_parts(tree, ex@), merged_png@);
                    &&& v@ == zip_archive(e)
                    &&& forall|i: int| 0 <= i < e.len() ==> #[trigger] zip_entry_read(v@, e[i].0) == Ok::<
                        Option<Seq<u8>>,
                        Seq<char>,
                    >(Some(e[i].2))
                },
                Err(e) => (e is Zip || e is Io) && !archive_fits(
                    ora_entries(stack_text(tree, ex@), stack_parts(tree, ex@), merged_png@),
                ),
            },
    {
        let (xml, parts) = stack_xml(tree, ex);
        let ghost entries = ora_entries(xml@, parts_view(parts@), merged_png@);
        let ghost fits = archive_fits(entries);
        let ghost g = |p: (Seq<char>, Seq<u8>)| (p.0, true, p.1);
        let ghost n: int = parts@.len() as int;
        proof {
            assert(entries.len() == n + 3);
            assert(entries[0] == ("mimetype"@, true, encode_utf8("image/openraster"@)));
            assert(entries[1] == ("stack.xml"@, false, encode_utf8(xml@)));
            assert(entries[n + 2] == ("mergedimage.png"@, true, merged_png@));
            assert forall|i: int| 0 <= i < n implies entries[i + 2] == g(parts_view(parts@)[i]) by {}
            assert(entries.take(0) =~= Seq::<(Seq<char>, bool, Seq<u8>)>::empty());
            if fits {
                lemma_put_fits(entries, 0);
            }
        }
        let mut w = zip_new();
        let mimetype = "image/openraster";
        proof {
            assert(entry_names(zip_written(w)) =~= Seq::<Seq<char>>::empty());
        }
        let ghost w0 = zip_written(w);
        if let Err(f) = zip_put(&mut w, "mimetype", true, mimetype.as_bytes()) {
            return Err(fault_error(f));
        }
        proof {
            lemma_push_name(w0, zip_written(w).last());
            assert(w0.push(zip_written(w).last()) =~= zip_written(w));
            if fits {
                lemma_put_fits(entries, 1);
            }
        }
        let ghost w1 = zip_written(w);
        if let Err(f) = zip_put(&mut w, "stack.xml", false, xml.as_str().as_bytes()) {
            return Err(fault_error(f));
        }
        proof {
            lemma_push_name(w1, zip_written(w).last());
            assert(w1.push(zip_written(w).last()) =~= zip_written(w));
        }
        let mut i: usize = 0;
        while i < parts.len()
            invariant
                i <= parts@.len(),
                n == parts@.len(),
                entries == ora_entries(xml@, parts_view(parts@), merged_png@),
                xml@ == stack_text(tree, ex@),
                parts_view(parts@) == stack_parts(tree, ex@),
                entries.len() == n + 3,
                fits == archive_fits(entries),
                g == (|p: (Seq<char>, Seq<u8>)| (p.0, true, p.1)),
                forall|j: int| 0 <= j < n ==> entries[j + 2] == g(parts_view(parts@)[j]),
                zip_written(w) == entries.take(i + 2),
                entry_names(zip_written(w)).no_duplicates(),
            decreases parts@.len() - i,
        {
            let part: &OraPart = &parts[i];
            proof {
                assert(entries[i + 2] == (part.src@, true, part.png@));
                if fits {
                    lemma_put_fits(entries, i + 2);
                }
            }
            let ghost wi = zip_written(w);
            if let Err(f) = zip_put(&mut w, part.src.as_str(), true, part.png.as_slice()) {
                return Err(fault_error(f));
            }
            proof {
                lemma_push_name(wi, zip_written(w).last());
            assert(wi.push(zip_written(w).last()) =~= zip_written(w));
                assert(entries.take(i + 2).push(entries[i + 2]) =~= entries.take(i + 3));
            }
            i = i + 1;
        }
        proof {
            if fits {
                lemma_put_fits(entries, n + 2);
            }
        }
        let ghost wn = zip_written(w);
        if let Err(f) = zip_put(&mut w, "mergedimage.png", true, merged_png) {
            return Err(fault_error(f));
        }
        proof {
            lemma_push_name(wn, zip_written(w).last());
            assert(wn.push(zip_written(w).last()) =~= zip_written(w));
            assert(entries.take(n + 2).push(entries[n + 2]) =~= entries);
        }
        match zip_finish(w) {
            Ok(v) => Ok(v),
            Err(m) => Err(OraError::Zip(m)),
        }
    }
}

/// A written `.ora` archive lists the `mimetype` first, stored, holding
/// exactly `image/openraster`; then `stack.xml`, deflated; then each layer
/// part, stored, in the order the stack refers to them; and last the
/// stored merged image.
pub proof fn law_ora_archive_layout(xml: Seq<char>, parts: Seq<(Seq<char>, Seq<u8>)>, merged_png: Seq<u8>)
    ensures
        ({
            let e = ora_entries(xml, parts, merged_png);
            &&& e.len() == parts.len() + 3
            &&& e[0] == ("mimetype"@, true, encode_utf8("image/openraster"@))
            &&& e[1] == ("stack.xml"@, false, encode_utf8(xml))
            &&& forall|i: int| 0 <= i < parts.len() ==> e[i + 2] == (parts[i].0, true, parts[i].1)
            &&& e[parts.len() as int + 2] == ("mergedimage.png"@, true, merged_png)
        }),
{
}

} // verus!
