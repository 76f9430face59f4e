//! The search-language text submitted for one rule.
use vstd::prelude::*;
use vstd::string::*;

verus! {

/// The strings of `tags` separated by commas.
pub open spec fn comma_joined(tags: Seq<Seq<char>>) -> Seq<char>
    decreases tags.len(),
{
    if tags.len() == 0 {
        Seq::empty()
    } else if tags.len() == 1 {
        tags[0]
    } else {
        comma_joined(tags.drop_last()) + ","@ + tags.last()
    }
}

/// The query for a converted fragment: a search over `index` since `earliest`
/// ago, the fragment as it is, then a clause that labels each result with the
/// rule's title and tags and sends it to the results index.
pub open spec fn query_text(
    index: Seq<char>,
    earliest: Seq<char>,
    fragment: Seq<char>,
    title: Seq<char>,
    tags: Seq<Seq<char>>,
) -> Seq<char> {
    "search index="@ + index + " earliest=-"@ + earliest + " "@ + fragment
        + " | eval rule_name=\""@ + title + "\", tags=\""@ + comma_joined(tags)
        + "\" | collect index=alertes output_format=hec"@
}

/// Joins the tags with commas, in their order.
pub fn join_tags(tags: &Vec<String>) -> (r: String)
    ensures
        r@ == comma_joined(tags.deep_view()),
{
    let mut r = String::new();
    let mut i: usize = 0;
    while i < tags.len()
        invariant
            0 <= i <= tags.len(),
            r@ == comma_joined(tags.deep_view().subrange(0, i as int)),
        decreases tags.len() - i,
    {
        let ghost prev = tags.deep_view().subrange(0, i as int);
        let ghost next = tags.deep_view().subrange(0, i as int + 1);
        assert(next.drop_last() =~= prev);
        if i > 0 {
            r.append(",");
        }
        r.append(tags[i].as_str());
        proof {
            if i == 0 {
                assert(r@ =~= next[0]);
            }
        }
        i = i + 1;
    }
    assert(tags.deep_view().subrange(0, tags.len() as int) =~= tags.deep_view());
    r
}

/// Builds the query text for a rule.
pub fn build_query(
    index: &str,
    earliest: &str,
    fragment: &str,
    title: &str,
    tags: &Vec<String>,
) -> (r: String)
    ensures
        r@ == query_text(index@, earliest@, fragment@, title@, tags.deep_view()),
{
    let mut q = String::from_str("search index=");
    q.append(index);
    q.append(" earliest=-");
    q.append(earliest);
    q.append(" ");
    q.append(fragment);
    q.append(" | eval rule_name=\"");
    q.append(title);
    q.append("\", tags=\"");
    let joined = join_tags(tags);
    q.append(joined.as_str());
    q.append("\" | collect index=alertes output_format=hec");
    q
}

} // verus!
