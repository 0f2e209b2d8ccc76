//! The fixed rule tables: law aliases and the keyword lists that classify
//! queries and articles.
use vstd::prelude::*;

verus! {

/// The statute whose articles are held back unless a query is about children.
pub const CHILD_WELFARE_LAW: &'static str = "児童福祉法";

/// The marker of an introductory article, looked for near the start of its text.
pub const PURPOSE_MARKER: &'static str = "目的";

/// One alias: a query phrase and the statutes it stands for.
pub struct LawAlias {
    pub alias: &'static str,
    pub laws: Vec<&'static str>,
}

/// An alias as plain values: the phrase and its statutes.
pub open spec fn alias_view(a: LawAlias) -> (&'static str, Seq<&'static str>) {
    (a.alias, a.laws@)
}

/// The alias table, specific phrases before broad ones.
pub open spec fn law_aliases() -> Seq<(&'static str, Seq<&'static str>)> {
    seq![
        ("高齢者虐待", seq!["高齢者虐待の防止、高齢者の養護者に対する支援等に関する法律"]),
        ("障害者虐待", seq!["障害者虐待の防止、障害者の養護者に対する支援等に関する法律"]),
        ("児童虐待", seq!["児童虐待の防止等に関する法律"]),
        ("配偶者暴力", seq!["配偶者からの暴力の防止及び被害者の保護等に関する法律"]),
        ("生活困窮", seq!["生活困窮者自立支援法"]),
        ("身体障害", seq!["身体障害者福祉法"]),
        ("自立支援", seq!["生活困窮者自立支援法", "障害者の日常生活及び社会生活を総合的に支援するための法律"]),
        ("精神障害", seq!["精神保健及び精神障害者福祉に関する法律"]),
        ("知的障害", seq!["知的障害者福祉法"]),
        ("虐待", seq!["児童虐待の防止等に関する法律", "高齢者虐待の防止、高齢者の養護者に対する支援等に関する法律", "障害者虐待の防止、障害者の養護者に対する支援等に関する法律", "配偶者からの暴力の防止及び被害者の保護等に関する法律"]),
        ("高齢", seq!["老人福祉法", "介護保険法", "高齢者虐待の防止、高齢者の養護者に対する支援等に関する法律"]),
        ("介護", seq!["介護保険法", "老人福祉法"]),
        ("障害", seq!["障害者の日常生活及び社会生活を総合的に支援するための法律", "身体障害者福祉法", "知的障害者福祉法", "精神保健及び精神障害者福祉に関する法律", "障害者虐待の防止、障害者の養護者に対する支援等に関する法律", "児童福祉法"]),
        ("児童", seq!["児童福祉法", "児童虐待の防止等に関する法律"]),
        ("子供", seq!["児童福祉法", "児童虐待の防止等に関する法律"]),
        ("DV", seq!["配偶者からの暴力の防止及び被害者の保護等に関する法律"]),
        ("生活保護", seq!["生活保護法"]),
        ("生保", seq!["生活保護法"]),
        ("生活保護法", seq!["生活保護法"]),
        ("児童福祉法", seq!["児童福祉法"]),
    ]
}

/// Keywords that mark a query as being about children.
pub open spec fn child_keywords() -> Seq<&'static str> {
    seq!["子供", "児童", "保育", "幼", "児", "母子", "虐待", "障蓋児", "未成年"]
}

/// Keywords that mark an article as a penal clause.
pub open spec fn penalty_keywords() -> Seq<&'static str> {
    seq!["罰金", "懲役", "処する", "過料", "併科"]
}

/// Keywords that mark a query as asking about penalties.
pub open spec fn user_penalty_request_keywords() -> Seq<&'static str> {
    seq!["罰", "罪", "違反", "ペナルティ"]
}

/// Article numbers and phrases of introductory or definitional articles.
pub open spec fn boost_articles() -> Seq<&'static str> {
    seq!["第一条", "第二条", "第三条", "１条", "２条", "３条", "目的", "定義"]
}

fn make_alias(alias: &'static str, laws: Vec<&'static str>) -> (r: LawAlias)
    ensures
        r.alias == alias,
        r.laws@ == laws@,
{
    LawAlias { alias, laws }
}

/// The alias table.
pub fn get_law_alias_map() -> (r: Vec<LawAlias>)
    ensures
        r@.len() == law_aliases().len(),
        forall|i: int| 0 <= i < r@.len() ==> alias_view(#[trigger] r@[i]) == law_aliases()[i],
        forall|i: int, j: int|
            0 <= i < j < r@.len() ==> (#[trigger] r@[i]).alias@ != (#[trigger] r@[j]).alias@,
{
    let mut m: Vec<LawAlias> = Vec::new();
    m.push(make_alias("高齢者虐待", vec!["高齢者虐待の防止、高齢者の養護者に対する支援等に関する法律"]));
    assert(alias_view(m@[0]) == law_aliases()[0]);
    m.push(make_alias("障害者虐待", vec!["障害者虐待の防止、障害者の養護者に対する支援等に関する法律"]));
    assert(alias_view(m@[1]) == law_aliases()[1]);
    m.push(make_alias("児童虐待", vec!["児童虐待の防止等に関する法律"]));
    assert(alias_view(m@[2]) == law_aliases()[2]);
    m.push(make_alias("配偶者暴力", vec!["配偶者からの暴力の防止及び被害者の保護等に関する法律"]));
    assert(alias_view(m@[3]) == law_aliases()[3]);
    m.push(make_alias("生活困窮", vec!["生活困窮者自立支援法"]));
    assert(alias_view(m@[4]) == law_aliases()[4]);
    m.push(make_alias("身体障害", vec!["身体障害者福祉法"]));
    assert(alias_view(m@[5]) == law_aliases()[5]);
    m.push(make_alias("自立支援", vec!["生活困窮者自立支援法", "障害者の日常生活及び社会生活を総合的に支援するための法律"]));
    assert(alias_view(m@[6]) == law_aliases()[6]);
    m.push(make_alias("精神障害", vec!["精神保健及び精神障害者福祉に関する法律"]));
    assert(alias_view(m@[7]) == law_aliases()[7]);
    m.push(make_alias("知的障害", vec!["知的障害者福祉法"]));
    assert(alias_view(m@[8]) == law_aliases()[8]);
    m.push(make_alias("虐待", vec!["児童虐待の防止等に関する法律", "高齢者虐待の防止、高齢者の養護者に対する支援等に関する法律", "障害者虐待の防止、障害者の養護者に対する支援等に関する法律", "配偶者からの暴力の防止及び被害者の保護等に関する法律"]));
    assert(alias_view(m@[9]) == law_aliases()[9]);
    m.push(make_alias("高齢", vec!["老人福祉法", "介護保険法", "高齢者虐待の防止、高齢者の養護者に対する支援等に関する法律"]));
    assert(alias_view(m@[10]) == law_aliases()[10]);
    m.push(make_alias("介護", vec!["介護保険法", "老人福祉法"]));
    assert(alias_view(m@[11]) == law_aliases()[11]);
    m.push(make_alias("障害", vec!["障害者の日常生活及び社会生活を総合的に支援するための法律", "身体障害者福祉法", "知的障害者福祉法", "精神保健及び精神障害者福祉に関する法律", "障害者虐待の防止、障害者の養護者に対する支援等に関する法律", "児童福祉法"]));
    assert(alias_view(m@[12]) == law_aliases()[12]);
    m.push(make_alias("児童", vec!["児童福祉法", "児童虐待の防止等に関する法律"]));
    assert(alias_view(m@[13]) == law_aliases()[13]);
    m.push(make_alias("子供", vec!["児童福祉法", "児童虐待の防止等に関する法律"]));
    assert(alias_view(m@[14]) == law_aliases()[14]);
    m.push(make_alias("DV", vec!["配偶者からの暴力の防止及び被害者の保護等に関する法律"]));
    assert(alias_view(m@[15]) == law_aliases()[15]);
    m.push(make_alias("生活保護", vec!["生活保護法"]));
    assert(alias_view(m@[16]) == law_aliases()[16]);
    m.push(make_alias("生保", vec!["生活保護法"]));
    assert(alias_view(m@[17]) == law_aliases()[17]);
    m.push(make_alias("生活保護法", vec!["生活保護法"]));
    assert(alias_view(m@[18]) == law_aliases()[18]);
    m.push(make_alias("児童福祉法", vec!["児童福祉法"]));
    assert(alias_view(m@[19]) == law_aliases()[19]);
    proof {
        reveal_strlit("高齢者虐待");
        reveal_strlit("障害者虐待");
        reveal_strlit("児童虐待");
        reveal_strlit("配偶者暴力");
        reveal_strlit("生活困窮");
        reveal_strlit("身体障害");
        reveal_strlit("自立支援");
        reveal_strlit("精神障害");
        reveal_strlit("知的障害");
        reveal_strlit("虐待");
        reveal_strlit("高齢");
        reveal_strlit("介護");
        reveal_strlit("障害");
        reveal_strlit("児童");
        reveal_strlit("子供");
        reveal_strlit("DV");
        reveal_strlit("生活保護");
        reveal_strlit("生保");
        reveal_strlit("生活保護法");
        reveal_strlit("児童福祉法");
        assert(m@[0].alias@.len() == 5 && m@[0].alias@[0] == '高' && m@[0].alias@[4] == '待');
        assert(m@[1].alias@.len() == 5 && m@[1].alias@[0] == '障' && m@[1].alias@[4] == '待');
        assert(m@[2].alias@.len() == 4 && m@[2].alias@[0] == '児' && m@[2].alias@[3] == '待');
        assert(m@[3].alias@.len() == 5 && m@[3].alias@[0] == '配' && m@[3].alias@[4] == '力');
        assert(m@[4].alias@.len() == 4 && m@[4].alias@[0] == '生' && m@[4].alias@[3] == '窮');
        assert(m@[5].alias@.len() == 4 && m@[5].alias@[0] == '身' && m@[5].alias@[3] == '害');
        assert(m@[6].alias@.len() == 4 && m@[6].alias@[0] == '自' && m@[6].alias@[3] == '援');
        assert(m@[7].alias@.len() == 4 && m@[7].alias@[0] == '精' && m@[7].alias@[3] == '害');
        assert(m@[8].alias@.len() == 4 && m@[8].alias@[0] == '知' && m@[8].alias@[3] == '害');
        assert(m@[9].alias@.len() == 2 && m@[9].alias@[0] == '虐' && m@[9].alias@[1] == '待');
        assert(m@[10].alias@.len() == 2 && m@[10].alias@[0] == '高' && m@[10].alias@[1] == '齢');
        assert(m@[11].alias@.len() == 2 && m@[11].alias@[0] == '介' && m@[11].alias@[1] == '護');
        assert(m@[12].alias@.len() == 2 && m@[12].alias@[0] == '障' && m@[12].alias@[1] == '害');
        assert(m@[13].alias@.len() == 2 && m@[13].alias@[0] == '児' && m@[13].alias@[1] == '童');
        assert(m@[14].alias@.len() == 2 && m@[14].alias@[0] == '子' && m@[14].alias@[1] == '供');
        assert(m@[15].alias@.len() == 2 && m@[15].alias@[0] == 'D' && m@[15].alias@[1] == 'V');
        assert(m@[16].alias@.len() == 4 && m@[16].alias@[0] == '生' && m@[16].alias@[3] == '護');
        assert(m@[17].alias@.len() == 2 && m@[17].alias@[0] == '生' && m@[17].alias@[1] == '保');
        assert(m@[18].alias@.len() == 5 && m@[18].alias@[0] == '生' && m@[18].alias@[4] == '法');
        assert(m@[19].alias@.len() == 5 && m@[19].alias@[0] == '児' && m@[19].alias@[4] == '法');
        assert forall|i: int, j: int|
            0 <= i < j < m@.len() implies (#[trigger] m@[i]).alias@ != (#[trigger] m@[j]).alias@ by {
            assert(i == 0 || i == 1 || i == 2 || i == 3 || i == 4 || i == 5 || i == 6 || i == 7 || i == 8 || i == 9 || i == 10 || i == 11 || i == 12 || i == 13 || i == 14 || i == 15 || i == 16 || i == 17 || i == 18 || i == 19);
            assert(j == 0 || j == 1 || j == 2 || j == 3 || j == 4 || j == 5 || j == 6 || j == 7 || j == 8 || j == 9 || j == 10 || j == 11 || j == 12 || j == 13 || j == 14 || j == 15 || j == 16 || j == 17 || j == 18 || j == 19);
        }
    }
    m
}

/// The keywords that mark a query as being about children.
pub fn get_child_keywords() -> (r: Vec<&'static str>)
    ensures
        r@ == child_keywords(),
{
    vec!["子供", "児童", "保育", "幼", "児", "母子", "虐待", "障蓋児", "未成年"]
}

/// The keywords that mark an article as a penal clause.
pub fn get_penalty_keywords() -> (r: Vec<&'static str>)
    ensures
        r@ == penalty_keywords(),
{
    vec!["罰金", "懲役", "処する", "過料", "併科"]
}

/// The keywords that mark a query as asking about penalties.
pub fn get_user_penalty_request_keywords() -> (r: Vec<&'static str>)
    ensures
        r@ == user_penalty_request_keywords(),
{
    vec!["罰", "罪", "違反", "ペナルティ"]
}

/// The markers of introductory or definitional articles.
pub fn get_boost_articles() -> (r: Vec<&'static str>)
    ensures
        r@ == boost_articles(),
{
    vec!["第一条", "第二条", "第三条", "１条", "２条", "３条", "目的", "定義"]
}

} // verus!
