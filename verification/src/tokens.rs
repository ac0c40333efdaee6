use vstd::prelude::*;

verus! {

/// An editor's access token as stored: its id, who holds it, and one flag per
/// kind of change it allows (non-zero means allowed).
#[derive(Clone, Debug, PartialEq, Eq)]
pub struct Token {
    pub id: String,
    pub identifier: String,
    pub can_add_advance_comic: u8,
    pub can_add_image_to_item: u8,
    pub can_add_item_to_comic: u8,
    pub can_change_comic_data: u8,
    pub can_change_item_data: u8,
    pub can_remove_image_from_item: u8,
    pub can_remove_item_from_comic: u8,
}

/// A permission an access token can grant.
#[derive(Copy, Clone, Debug, PartialEq, Eq, Hash, Structural)]
pub enum TokenPermission {
    HasValidToken,
    CanAddAdvanceComic,
    CanAddItemToComic,
    CanRemoveItemFromComic,
    CanChangeComicData,
    CanAddImageToItem,
    CanRemoveImageFromItem,
    CanChangeItemData,
}

/// `p` when `flag` is set.
pub open spec fn granted(flag: u8, p: TokenPermission) -> Seq<TokenPermission> {
    if flag != 0 {
        seq![p]
    } else {
        Seq::empty()
    }
}

/// The permissions of a stored token: that it is valid, then each change its
/// flags allow, in a fixed order.
pub open spec fn token_permissions(t: Token) -> Seq<TokenPermission> {
    seq![TokenPermission::HasValidToken] + granted(
        t.can_add_advance_comic,
        TokenPermission::CanAddAdvanceComic,
    ) + granted(t.can_add_item_to_comic, TokenPermission::CanAddItemToComic) + granted(
        t.can_remove_item_from_comic,
        TokenPermission::CanRemoveItemFromComic,
    ) + granted(t.can_change_comic_data, TokenPermission::CanChangeComicData) + granted(
        t.can_add_image_to_item,
        TokenPermission::CanAddImageToItem,
    ) + granted(t.can_remove_image_from_item, TokenPermission::CanRemoveImageFromItem)
        + granted(t.can_change_item_data, TokenPermission::CanChangeItemData)
}

fn push_granted(out: &mut Vec<TokenPermission>, flag: u8, p: TokenPermission)
    ensures
        final(out)@ == old(out)@ + granted(flag, p),
{
    if flag != 0 {
        out.push(p);
    }
    assert(out@ =~= old(out)@ + granted(flag, p));
}

impl Token {
    /// The permissions granted by the token found for a request (`None` when
    /// no stored token matches, which grants nothing). No permission occurs
    /// twice.
    pub fn get_permissions_for_token(found: Option<&Token>) -> (r: Vec<TokenPermission>)
        ensures
            match found {
                None => r@.len() == 0,
                Some(t) => r@ == token_permissions(*t),
            },
            r@.no_duplicates(),
    {
        match found {
            None => Vec::new(),
            Some(t) => {
                let mut out: Vec<TokenPermission> = Vec::new();
                out.push(TokenPermission::HasValidToken);
                assert(out@ =~= seq![TokenPermission::HasValidToken]);
                push_granted(&mut out, t.can_add_advance_comic, TokenPermission::CanAddAdvanceComic);
                push_granted(&mut out, t.can_add_item_to_comic, TokenPermission::CanAddItemToComic);
                push_granted(
                    &mut out,
                    t.can_remove_item_from_comic,
                    TokenPermission::CanRemoveItemFromComic,
                );
                push_granted(&mut out, t.can_change_comic_data, TokenPermission::CanChangeComicData);
                push_granted(&mut out, t.can_add_image_to_item, TokenPermission::CanAddImageToItem);
                push_granted(
                    &mut out,
                    t.can_remove_image_from_item,
                    TokenPermission::CanRemoveImageFromItem,
                );
                push_granted(&mut out, t.can_change_item_data, TokenPermission::CanChangeItemData);
                proof {
                    lemma_token_permissions_distinct(*t);
                }
                out
            },
        }
    }
}

/// The permissions of a stored token are distinct, and it always grants that
/// it is valid.
pub proof fn lemma_token_permissions_distinct(t: Token)
    ensures
        token_permissions(t).no_duplicates(),
        token_permissions(t).len() >= 1,
        token_permissions(t)[0] == TokenPermission::HasValidToken,
{
    let s = token_permissions(t);
    assert forall|i: int, j: int| 0 <= i < s.len() && 0 <= j < s.len() && i != j implies s[i]
        != s[j] by {
        assert(rank(s[i]) != rank(s[j])) by {
            lemma_rank_increasing(t, i, j);
        }
    }
}

/// The position of a permission in the fixed order.
pub open spec fn rank(p: TokenPermission) -> int {
    match p {
        TokenPermission::HasValidToken => 0,
        TokenPermission::CanAddAdvanceComic => 1,
        TokenPermission::CanAddItemToComic => 2,
        TokenPermission::CanRemoveItemFromComic => 3,
        TokenPermission::CanChangeComicData => 4,
        TokenPermission::CanAddImageToItem => 5,
        TokenPermission::CanRemoveImageFromItem => 6,
        TokenPermission::CanChangeItemData => 7,
    }
}

/// The sequence of `granted` pieces, ranked in increasing order.
proof fn lemma_rank_increasing(t: Token, i: int, j: int)
    requires
        0 <= i < token_permissions(t).len(),
        0 <= j < token_permissions(t).len(),
        i != j,
    ensures
        rank(token_permissions(t)[i]) != rank(token_permissions(t)[j]),
{
    let s = token_permissions(t);
    assert(forall|a: int, b: int| 0 <= a < b < s.len() ==> rank(s[a]) < rank(s[b]));
}

} // verus!
