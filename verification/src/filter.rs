use vstd::prelude::*;

verus! {

/// One tag constraint of a filter: match events carrying a tag whose key is
/// the given single letter and whose first argument is one of `values`.
#[derive(Debug, Clone, PartialEq, Eq)]
pub struct TagQuery {
    pub letter: char,
    pub values: Vec<String>,
}

/// Mathematical model of a [`TagQuery`].
pub ghost struct TagQueryV {
    pub letter: char,
    pub values: Seq<Seq<char>>,
}

impl View for TagQuery {
    type V = TagQueryV;

    open spec fn view(&self) -> TagQueryV {
        TagQueryV { letter: self.letter, values: self.values.deep_view() }
    }
}

impl DeepView for TagQuery {
    type V = TagQueryV;

    open spec fn deep_view(&self) -> TagQueryV {
        self.view()
    }
}

/// A query specification used to select stored events. Absent fields do not
/// constrain the match; matching semantics are owned by the store.
#[derive(Debug, Clone, PartialEq, Eq)]
pub struct Filter {
    pub ids: Option<Vec<String>>,
    pub authors: Option<Vec<String>>,
    pub kinds: Option<Vec<u16>>,
    pub since: Option<u64>,
    pub until: Option<u64>,
    pub limit: Option<u64>,
    pub tag_queries: Vec<TagQuery>,
}

/// Mathematical model of a [`Filter`].
pub ghost struct FilterV {
    pub ids: Option<Seq<Seq<char>>>,
    pub authors: Option<Seq<Seq<char>>>,
    pub kinds: Option<Seq<u16>>,
    pub since: Option<u64>,
    pub until: Option<u64>,
    pub limit: Option<u64>,
    pub tag_queries: Seq<TagQueryV>,
}

impl View for Filter {
    type V = FilterV;

    open spec fn view(&self) -> FilterV {
        FilterV {
            ids: self.ids.deep_view(),
            authors: self.authors.deep_view(),
            kinds: match self.kinds {
                Some(ks) => Some(ks@),
                None => None,
            },
            since: self.since,
            until: self.until,
            limit: self.limit,
            tag_queries: self.tag_queries.deep_view(),
        }
    }
}

impl DeepView for Filter {
    type V = FilterV;

    open spec fn deep_view(&self) -> FilterV {
        self.view()
    }
}

} // verus!
