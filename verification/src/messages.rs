//! Deterministic message content: the fixed bureau poll, the chooser
//! keyboard layout, the quiz question line, and bulleted listings.

use vstd::prelude::*;
use vstd::string::StringExecFns;

use crate::strseq::views_of;

verus! {

/// The options of the fixed "who is at the bureau?" poll, in order.
pub fn bureau_poll_options() -> (r: Vec<String>)
    ensures
        r@.len() == 6,
        r@[0]@ == "Je suis actuellement au bureau"@,
        r@[1]@ == "Je suis à proximité du bureau"@,
        r@[2]@ == "Je compte m'y rendre bientôt"@,
        r@[3]@ == "J'y suis pas"@,
        r@[4]@ == "Je suis à Satellite"@,
        r@[5]@ == "Je suis pas en Suisse"@,
{
    let mut r: Vec<String> = Vec::new();
    r.push("Je suis actuellement au bureau".to_owned());
    r.push("Je suis à proximité du bureau".to_owned());
    r.push("Je compte m'y rendre bientôt".to_owned());
    r.push("J'y suis pas".to_owned());
    r.push("Je suis à Satellite".to_owned());
    r.push("Je suis pas en Suisse".to_owned());
    r
}

/// The views of a sequence of keyboard rows, flattened back into one list.
pub open spec fn flat_views(rows: Seq<Vec<String>>) -> Seq<Seq<char>>
    decreases rows.len(),
{
    if rows.len() == 0 {
        Seq::empty()
    } else {
        flat_views(rows.drop_last()) + views_of(rows.last()@)
    }
}

/// Lays the items out as keyboard rows of at most `width` buttons: every row
/// but the last is full, no button is lost and none is invented.
#[verifier::loop_isolation(false)]
pub fn chunk_rows(items: &Vec<String>, width: usize) -> (rows: Vec<Vec<String>>)
    requires
        1 <= width,
    ensures
        flat_views(rows@) == views_of(items@),
        forall|j: int| 0 <= j < rows@.len() ==> 1 <= #[trigger] rows@[j]@.len() <= width,
        forall|j: int| 0 <= j < rows@.len() - 1 ==> #[trigger] rows@[j]@.len() == width,
{
    let mut rows: Vec<Vec<String>> = Vec::new();
    let mut current: Vec<String> = Vec::new();
    let mut i: usize = 0;
    proof {
        assert(flat_views(rows@) + views_of(current@) =~= views_of(items@.subrange(0, 0)));
    }
    while i < items.len()
        invariant
            i <= items@.len(),
            current@.len() < width,
            flat_views(rows@) + views_of(current@) == views_of(items@.subrange(0, i as int)),
            forall|j: int| 0 <= j < rows@.len() ==> #[trigger] rows@[j]@.len() == width,
        decreases items@.len() - i,
    {
        let ghost rows0 = rows@;
        let ghost current0 = current@;
        current.push(items[i].clone());
        proof {
            assert(views_of(current@) =~= views_of(current0).push(items@[i as int]@));
            assert(views_of(items@.subrange(0, i + 1)) =~= views_of(
                items@.subrange(0, i as int),
            ).push(items@[i as int]@));
            assert(flat_views(rows@) + views_of(current@) =~= views_of(
                items@.subrange(0, i + 1),
            ));
        }
        if current.len() == width {
            let ghost current1 = current@;
            rows.push(current);
            current = Vec::new();
            proof {
                assert(rows@.drop_last() =~= rows0);
                assert(flat_views(rows@) == flat_views(rows0) + views_of(current1));
                assert(flat_views(rows@) + views_of(current@) =~= views_of(
                    items@.subrange(0, i + 1),
                ));
            }
        }
        i += 1;
    }
    proof {
        assert(items@.subrange(0, items@.len() as int) =~= items@);
    }
    if current.len() > 0 {
        let ghost rows0 = rows@;
        let ghost current1 = current@;
        rows.push(current);
        proof {
            assert(rows@.drop_last() =~= rows0);
            assert(flat_views(rows@) == flat_views(rows0) + views_of(current1));
            assert(flat_views(rows@) =~= views_of(items@));
        }
    } else {
        proof {
            assert(flat_views(rows@) + views_of(current@) =~= flat_views(rows@));
        }
    }
    rows
}

/// The question line of a quiz for the received quote.
pub fn quiz_question(quote: &str) -> (r: String)
    ensures
        r@ == "Qui a dit: \""@ + quote@ + "\" ?"@,
{
    let mut r = "Qui a dit: \"".to_owned();
    r.append(quote);
    r.append("\" ?");
    r
}

/// The listing of the items as lines of the shape ` - item`.
pub open spec fn bullet_lines(items: Seq<Seq<char>>) -> Seq<char>
    decreases items.len(),
{
    if items.len() == 0 {
        Seq::empty()
    } else if items.len() == 1 {
        " - "@ + items[0]
    } else {
        bullet_lines(items.drop_last()) + "\n"@ + " - "@ + items.last()
    }
}

/// Renders the items one per line, each prefixed with ` - `.
#[verifier::loop_isolation(false)]
pub fn bullet_list(items: &Vec<String>) -> (r: String)
    ensures
        r@ == bullet_lines(views_of(items@)),
{
    let ghost all = views_of(items@);
    let mut r = String::new();
    let mut i: usize = 0;
    while i < items.len()
        invariant
            i <= items@.len(),
            r@ == bullet_lines(all.subrange(0, i as int)),
        decreases items@.len() - i,
    {
        if i > 0 {
            r.append("\n");
        }
        r.append(" - ");
        r.append(items[i].as_str());
        proof {
            let t = all.subrange(0, i + 1);
            assert(t.drop_last() =~= all.subrange(0, i as int));
            assert(t.last() == all[i as int]);
            if i == 0 {
                assert(t.len() == 1);
                assert(t[0] == all[0]);
                assert(r@ == " - "@ + all[0]);
            }
        }
        i += 1;
    }
    proof {
        assert(all.subrange(0, all.len() as int) =~= all);
    }
    r
}

} // verus!
