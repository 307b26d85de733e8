//! The path bar of the chooser: one button for each component of the
//! directory shown, leading to the directory up to that component.
use vstd::prelude::*;
use vstd::string::*;
use crate::chooser::paths::{
    PathPiece, PathPieceView, PrefixKind, PrefixKindView, char_text, path_piece_kinds, path_piece_list,
    piece_kind_views, prefix_kind, prefix_kind_of, path_join, join,
};

verus! {

/// The drive letter of a prefix of the kind `k`, for a drive (`C:`) or a
/// verbatim drive (`\\?\C:`); none for any other prefix.
pub open spec fn disk_letter(k: Option<PrefixKindView>) -> Option<u8> {
    match k {
        Some(PrefixKindView::Disk(d)) => Some(d),
        Some(PrefixKindView::VerbatimDisk(d)) => Some(d),
        _ => None,
    }
}

/// The label of a component, given the drive letter that waits for its
/// root: the root of a drive reads like `C:\`.
pub open spec fn piece_label(piece: PathPieceView, disk: Option<Seq<char>>) -> Seq<char> {
    match piece {
        PathPieceView::RootDir(s) => match disk {
            Some(d) => d + seq![':'] + s,
            None => s,
        },
        PathPieceView::Prefix(s) => s,
        PathPieceView::CurDir(s) => s,
        PathPieceView::ParentDir(s) => s,
        PathPieceView::Normal(s) => s,
    }
}

/// The buttons for the components `pieces`, each a label and the path up
/// to and including it, continuing the path `upto`. A drive prefix makes
/// no button: its letter goes to the label of the root that follows. Any
/// other prefix makes a button like a name does.
pub open spec fn path_buttons_from(pieces: Seq<PathPieceView>, disk: Option<Seq<char>>, upto: Seq<char>) -> Seq<
    (Seq<char>, Seq<char>),
>
    decreases pieces.len(),
{
    if pieces.len() == 0 {
        Seq::empty()
    } else {
        let rest = pieces.drop_first();
        let label = piece_label(pieces[0], disk);
        let p = path_join(upto, label);
        match pieces[0] {
            PathPieceView::Prefix(s) => match disk_letter(prefix_kind(s)) {
                Some(d) => path_buttons_from(rest, Some(seq![d as char]), upto),
                None => seq![(label, p)] + path_buttons_from(rest, disk, p),
            },
            PathPieceView::RootDir(_) => seq![(label, p)] + path_buttons_from(rest, None, p),
            _ => seq![(label, p)] + path_buttons_from(rest, disk, p),
        }
    }
}

/// The values of a list of buttons.
pub open spec fn button_views(v: Seq<(String, String)>) -> Seq<(Seq<char>, Seq<char>)> {
    v.map_values(|b: (String, String)| (b.0@, b.1@))
}

/// The value of an optional text.
pub open spec fn text_view(o: Option<String>) -> Option<Seq<char>> {
    match o {
        Some(d) => Some(d@),
        None => None,
    }
}

/// The buttons of the path bar for the directory `path`: a label and the
/// directory it leads to, for each component of `path`.
pub fn path_buttons(path: &str) -> (r: Vec<(String, String)>)
    ensures
        button_views(r@) == path_buttons_from(path_piece_kinds(path@), None, Seq::empty()),
{
    let pieces = path_piece_list(path);
    let ghost pv = piece_kind_views(pieces@);
    let mut r: Vec<(String, String)> = Vec::new();
    let mut disk: Option<String> = None;
    let mut upto = String::new();
    let mut i: usize = 0;
    assert(pv.skip(0) =~= pv);
    assert(button_views(r@) + path_buttons_from(pv.skip(0), None, upto@) =~= path_buttons_from(pv, None, Seq::empty()));
    while i < pieces.len()
        invariant
            pv == piece_kind_views(pieces@),
            pv == path_piece_kinds(path@),
            i <= pieces.len(),
            button_views(r@) + path_buttons_from(pv.skip(i as int), text_view(disk), upto@)
                == path_buttons_from(pv, None, Seq::empty()),
        decreases pieces.len() - i,
    {
        let ghost dv = text_view(disk);
        let ghost before = button_views(r@);
        assert(pv.skip(i as int)[0] == pv[i as int]);
        assert(pv.skip(i as int).drop_first() =~= pv.skip(i + 1));
        assert(pv[i as int] == pieces@[i as int]@);
        let mut plain: Option<&String> = None;
        match &pieces[i] {
            PathPiece::Prefix(s) => {
                let kind = prefix_kind_of(s.as_str());
                match kind {
                    Some(PrefixKind::Disk(d)) | Some(PrefixKind::VerbatimDisk(d)) => {
                        disk = Some(char_text(d as char));
                    },
                    _ => {
                        plain = Some(s);
                    },
                }
            },
            PathPiece::RootDir(s) => {
                let label = match &disk {
                    Some(d) => {
                        let mut l = d.clone();
                        let colon = ":";
                        proof {
                            reveal_strlit(":");
                        }
                        l.append(colon);
                        l.append(s.as_str());
                        l
                    },
                    None => s.clone(),
                };
                assert(label@ =~= piece_label(pv[i as int], dv));
                let next = join(upto.as_str(), label.as_str());
                r.push((label, next.clone()));
                proof {
                    assert(button_views(r@) =~= before.push((label@, next@)));
                }
                disk = None;
                upto = next;
            },
            PathPiece::CurDir(s) | PathPiece::ParentDir(s) | PathPiece::Normal(s) => {
                plain = Some(s);
            },
        }
        if let Some(s) = plain {
            let label = s.clone();
            assert(label@ =~= piece_label(pv[i as int], dv));
            let next = join(upto.as_str(), label.as_str());
            r.push((label, next.clone()));
            proof {
                assert(button_views(r@) =~= before.push((label@, next@)));
            }
            upto = next;
        }
        i = i + 1;
    }
    assert(pv.skip(pieces.len() as int) =~= Seq::<PathPieceView>::empty());
    assert(button_views(r@) =~= button_views(r@) + Seq::<(Seq<char>, Seq<char>)>::empty());
    r
}

} // verus!
