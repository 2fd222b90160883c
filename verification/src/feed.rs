//! The feed model: raw feed items as the RSS document holds them, and the
//! episodes kept from them. An item is kept only when it has both a title and
//! an enclosure URL; the limit bounds how many raw items are considered at
//! all, not how many valid episodes come out.

use vstd::prelude::*;

verus! {

/// One entry of an RSS channel, reduced to the two fields this tool reads.
/// Either may be absent in the document.
pub struct FeedItem {
    pub title: Option<String>,
    pub url: Option<String>,
}

/// A playable episode: a title and the URL of its media file.
pub struct Episode {
    pub title: String,
    pub url: String,
}

impl View for FeedItem {
    type V = (Option<Seq<char>>, Option<Seq<char>>);

    open spec fn view(&self) -> Self::V {
        (
            match self.title {
                Option::Some(t) => Option::Some(t@),
                Option::None => Option::None,
            },
            match self.url {
                Option::Some(u) => Option::Some(u@),
                Option::None => Option::None,
            },
        )
    }
}

impl View for Episode {
    type V = (Seq<char>, Seq<char>);

    open spec fn view(&self) -> Self::V {
        (self.title@, self.url@)
    }
}

/// The views of a sequence of feed items.
pub open spec fn item_views(s: Seq<FeedItem>) -> Seq<(Option<Seq<char>>, Option<Seq<char>>)> {
    s.map_values(|it: FeedItem| it@)
}

/// The views of a sequence of episodes.
pub open spec fn episode_views(s: Seq<Episode>) -> Seq<(Seq<char>, Seq<char>)> {
    s.map_values(|e: Episode| e@)
}

/// What one raw item contributes: its episode if it has both fields, nothing
/// otherwise.
pub open spec fn kept(it: (Option<Seq<char>>, Option<Seq<char>>)) -> Seq<(Seq<char>, Seq<char>)> {
    match it {
        (Option::Some(t), Option::Some(u)) => seq![(t, u)],
        _ => Seq::empty(),
    }
}

/// The episodes taken from the first `limit` raw items, in feed order.
pub open spec fn selected_episodes(
    items: Seq<(Option<Seq<char>>, Option<Seq<char>>)>,
    limit: int,
) -> Seq<(Seq<char>, Seq<char>)>
    decreases items.len(),
{
    if limit <= 0 || items.len() == 0 {
        Seq::empty()
    } else {
        kept(items[0]) + selected_episodes(items.drop_first(), limit - 1)
    }
}

/// The episodes taken from every raw item, in feed order.
pub open spec fn all_valid(
    items: Seq<(Option<Seq<char>>, Option<Seq<char>>)>,
) -> Seq<(Seq<char>, Seq<char>)>
    decreases items.len(),
{
    if items.len() == 0 {
        Seq::empty()
    } else {
        kept(items[0]) + all_valid(items.drop_first())
    }
}

/// How many raw items have both a title and an enclosure URL.
pub open spec fn valid_count(items: Seq<(Option<Seq<char>>, Option<Seq<char>>)>) -> int
    decreases items.len(),
{
    if items.len() == 0 {
        0int
    } else {
        kept(items[0]).len() + valid_count(items.drop_first())
    }
}

/// Law: with a limit of at least the raw item count, selection keeps exactly
/// the items that have both a title and an enclosure URL, in their original
/// order — one episode per such item.
pub proof fn lemma_select_unlimited(
    items: Seq<(Option<Seq<char>>, Option<Seq<char>>)>,
    limit: int,
)
    requires
        limit >= items.len(),
    ensures
        selected_episodes(items, limit) == all_valid(items),
        all_valid(items).len() == valid_count(items),
    decreases items.len(),
{
    if items.len() > 0 {
        lemma_select_unlimited(items.drop_first(), limit - 1);
    }
}

/// Law: a limit of zero selects nothing.
pub proof fn lemma_select_limit_zero(items: Seq<(Option<Seq<char>>, Option<Seq<char>>)>)
    ensures
        selected_episodes(items, 0) == Seq::<(Seq<char>, Seq<char>)>::empty(),
{
}

/// Why a feed could not be turned into episodes.
#[derive(Clone, Copy, Debug, PartialEq, Eq, Structural)]
pub enum FeedError {
    /// The bytes were not a well-formed RSS document.
    Parse,
}

/// What parsing a byte string as an RSS document yields: `None` when the
/// bytes are not well-formed RSS, otherwise each item's optional title and
/// optional enclosure URL, in document order. A pure function of the bytes.
pub uninterp spec fn parsed_items(bytes: Seq<u8>) -> Option<
    Seq<(Option<Seq<char>>, Option<Seq<char>>)>,
>;

/// Relies on `rss::Channel::read_from`: whether the bytes parse as RSS, and
/// which items the document holds, depend on the bytes alone; `Item::title`
/// and `Item::enclosure` hand out the parsed fields.
#[verifier::external_body]
fn parse_feed(bytes: &Vec<u8>) -> (r: Option<Vec<FeedItem>>)
    ensures
        (r is Some) == (parsed_items(bytes@) is Some),
        r matches Some(items) ==> parsed_items(bytes@) == Some(item_views(items@)),
{
    let channel = match rss::Channel::read_from(&bytes[..]) {
        Ok(c) => c,
        Err(_) => return None,
    };
    Some(
        channel.items().iter().map(
            |item| FeedItem {
                title: item.title().map(|t| t.to_string()),
                url: item.enclosure().map(|e| e.url().to_string()),
            },
        ).collect(),
    )
}

/// Walks the first `limit` raw items and keeps those with both fields.
pub fn select_episodes(items: &Vec<FeedItem>, limit: usize) -> (eps: Vec<Episode>)
    ensures
        episode_views(eps@) == selected_episodes(item_views(items@), limit as int),
{
    let ghost w = item_views(items@);
    let n: usize = if limit < items.len() {
        limit
    } else {
        items.len()
    };
    let mut eps: Vec<Episode> = Vec::new();
    let mut i: usize = 0;
    proof {
        assert(w.skip(0) =~= w);
        assert(episode_views(eps@) =~= Seq::<(Seq<char>, Seq<char>)>::empty());
        assert(episode_views(eps@) + selected_episodes(w, limit as int) =~= selected_episodes(
            w,
            limit as int,
        ));
    }
    while i < n
        invariant
            n <= items@.len(),
            n <= limit,
            limit <= items@.len() || n == items@.len(),
            i <= n,
            w == item_views(items@),
            selected_episodes(w, limit as int) == episode_views(eps@) + selected_episodes(
                w.skip(i as int),
                limit - i,
            ),
        decreases n - i,
    {
        proof {
            assert(w.skip(i as int)[0] == w[i as int]);
            assert(w[i as int] == items@[i as int]@);
            assert(w.skip(i as int).drop_first() =~= w.skip(i as int + 1));
        }
        match (&items[i].title, &items[i].url) {
            (Some(t), Some(u)) => {
                let e = Episode { title: t.clone(), url: u.clone() };
                proof {
                    assert(kept(w[i as int]) =~= seq![e@]);
                }
                eps.push(e);
                proof {
                    assert(episode_views(eps@) =~= episode_views(eps@.drop_last()).push(e@));
                    assert(episode_views(eps@.drop_last()).push(e@) + selected_episodes(
                        w.skip(i as int + 1),
                        limit - i - 1,
                    ) =~= episode_views(eps@.drop_last()) + (seq![e@] + selected_episodes(
                        w.skip(i as int + 1),
                        limit - i - 1,
                    )));
                }
            },
            _ => {
                proof {
                    assert(kept(w[i as int]) =~= Seq::<(Seq<char>, Seq<char>)>::empty());
                    assert(Seq::<(Seq<char>, Seq<char>)>::empty() + selected_episodes(
                        w.skip(i as int + 1),
                        limit - i - 1,
                    ) =~= selected_episodes(w.skip(i as int + 1), limit - i - 1));
                }
            },
        }
        i = i + 1;
    }
    proof {
        if n < limit {
            assert(w.skip(n as int).len() == 0);
        }
        assert(selected_episodes(w.skip(i as int), limit - i) =~= Seq::<
            (Seq<char>, Seq<char>),
        >::empty());
        assert(episode_views(eps@) + Seq::<(Seq<char>, Seq<char>)>::empty() =~= episode_views(
            eps@,
        ));
    }
    eps
}

/// Parses the bytes as an RSS document and selects episodes from its first
/// `limit` items. Fails exactly when the bytes are not well-formed RSS.
pub fn episodes_from_bytes(bytes: &Vec<u8>, limit: usize) -> (r: Result<Vec<Episode>, FeedError>)
    ensures
        (r is Ok) == (parsed_items(bytes@) is Some),
        r matches Ok(eps) ==> parsed_items(bytes@) matches Some(items) && episode_views(eps@)
            == selected_episodes(items, limit as int),
        r matches Err(e) ==> e == FeedError::Parse,
{
    match parse_feed(bytes) {
        Some(items) => Ok(select_episodes(&items, limit)),
        None => Err(FeedError::Parse),
    }
}

} // verus!
