//! Rendering of investment reports as Markdown.

use vstd::prelude::*;
use crate::model::strings_view;
use crate::text::push_str;

verus! {

/// One section of an investment report.
#[derive(Debug)]
pub struct ReportSection {
    pub title: String,
    pub status: String,
    pub summary: String,
    pub details: Vec<String>,
    pub warnings: Vec<String>,
    pub suggested_actions: Vec<String>,
}

/// The text of an investment report that its Markdown rendering shows.
#[derive(Debug)]
pub struct ReportContent {
    pub title: String,
    pub start_date: String,
    pub end_date: String,
    pub generated_at: String,
    pub warnings: Vec<String>,
    pub pending_actions: Vec<String>,
    pub sections: Vec<ReportSection>,
}

/// Each line of `items` as `<prefix><item>\n`, in order.
pub open spec fn bullet_lines(items: Seq<Seq<char>>, prefix: Seq<char>) -> Seq<char>
    decreases items.len(),
{
    if items.len() == 0 {
        Seq::empty()
    } else {
        bullet_lines(items.drop_last(), prefix) + prefix + items.last() + "\n"@
    }
}

/// A titled bullet block, or nothing when there are no items.
pub open spec fn bullet_block(heading: Seq<char>, items: Seq<Seq<char>>, prefix: Seq<char>) -> Seq<char> {
    if items.len() == 0 {
        Seq::empty()
    } else {
        heading + bullet_lines(items, prefix) + "\n"@
    }
}

/// The Markdown of one section.
pub open spec fn section_markdown(s: ReportSection) -> Seq<char> {
    "## "@ + s.title@ + "\n\n"@ + "状态: **"@ + s.status@ + "**\n\n"@ + s.summary@ + "\n\n"@
        + bullet_block("### 详细信息\n\n"@, strings_view(s.details@), "* "@)
}

/// The Markdown of the sections, in order.
pub open spec fn sections_markdown(ss: Seq<ReportSection>) -> Seq<char>
    decreases ss.len(),
{
    if ss.len() == 0 {
        Seq::empty()
    } else {
        sections_markdown(ss.drop_last()) + section_markdown(ss.last())
    }
}

/// The Markdown of a report: title, period and generation time, warnings,
/// pending actions as check boxes, the sections, and the footer.
pub open spec fn report_markdown(r: ReportContent) -> Seq<char> {
    "# "@ + r.title@ + "\n\n"@ + "* 周期: "@ + r.start_date@ + " 至 "@ + r.end_date@ + "\n"@
        + "* 生成时间: "@ + r.generated_at@ + "\n\n"@ + bullet_block(
        "## ⚠️ 警告\n\n"@,
        strings_view(r.warnings@),
        "* "@,
    ) + bullet_block("## 📋 待处理事项\n\n"@, strings_view(r.pending_actions@), "* [ ] "@)
        + sections_markdown(r.sections@) + "---\n*本报告由 JDI Portfolio 自动生成*\n"@
}

/// Appends `<prefix><item>\n` for each item.
fn push_bullets(md: &mut String, items: &Vec<String>, prefix: &str)
    ensures
        final(md)@ == old(md)@ + bullet_lines(strings_view(items@), prefix@),
{
    let ghost start = md@;
    let ghost sv = strings_view(items@);
    let n = items.len();
    let mut i: usize = 0;
    assert(sv.take(0) =~= Seq::<Seq<char>>::empty());
    while i < n
        invariant
            n == items.len(),
            sv == strings_view(items@),
            i <= n,
            md@ == start + bullet_lines(sv.take(i as int), prefix@),
        decreases n - i,
    {
        push_str(md, prefix);
        push_str(md, items[i].as_str());
        push_str(md, "\n");
        proof {
            let t = sv.take(i + 1);
            assert(t.drop_last() =~= sv.take(i as int));
            assert(t.last() == items@[i as int]@);
            assert(md@ =~= start + bullet_lines(t, prefix@));
        }
        i += 1;
    }
    assert(sv.take(n as int) =~= sv);
}

/// Appends a titled bullet block, or nothing when there are no items.
fn push_block(md: &mut String, heading: &str, items: &Vec<String>, prefix: &str)
    ensures
        final(md)@ == old(md)@ + bullet_block(heading@, strings_view(items@), prefix@),
{
    if items.len() > 0 {
        push_str(md, heading);
        push_bullets(md, items, prefix);
        push_str(md, "\n");
        assert(md@ =~= old(md)@ + bullet_block(heading@, strings_view(items@), prefix@));
    } else {
        assert(strings_view(items@).len() == 0);
        assert(md@ =~= old(md)@ + bullet_block(heading@, strings_view(items@), prefix@));
    }
}

/// Renders an investment report as Markdown.
pub fn render_report_to_markdown(report: &ReportContent) -> (md: String)
    ensures
        md@ == report_markdown(*report),
{
    let mut md = String::new();
    push_str(&mut md, "# ");
    push_str(&mut md, report.title.as_str());
    push_str(&mut md, "\n\n");
    push_str(&mut md, "* 周期: ");
    push_str(&mut md, report.start_date.as_str());
    push_str(&mut md, " 至 ");
    push_str(&mut md, report.end_date.as_str());
    push_str(&mut md, "\n");
    push_str(&mut md, "* 生成时间: ");
    push_str(&mut md, report.generated_at.as_str());
    push_str(&mut md, "\n\n");
    push_block(&mut md, "## ⚠️ 警告\n\n", &report.warnings, "* ");
    push_block(&mut md, "## 📋 待处理事项\n\n", &report.pending_actions, "* [ ] ");
    let ghost head = md@;
    let n = report.sections.len();
    let mut i: usize = 0;
    assert(report.sections@.take(0) =~= Seq::<ReportSection>::empty());
    while i < n
        invariant
            n == report.sections@.len(),
            i <= n,
            md@ == head + sections_markdown(report.sections@.take(i as int)),
        decreases n - i,
    {
        let section = &report.sections[i];
        let ghost before = md@;
        push_str(&mut md, "## ");
        push_str(&mut md, section.title.as_str());
        push_str(&mut md, "\n\n");
        push_str(&mut md, "状态: **");
        push_str(&mut md, section.status.as_str());
        push_str(&mut md, "**\n\n");
        push_str(&mut md, section.summary.as_str());
        push_str(&mut md, "\n\n");
        push_block(&mut md, "### 详细信息\n\n", &section.details, "* ");
        proof {
            assert(md@ =~= before + section_markdown(*section));
            let t = report.sections@.take(i + 1);
            assert(t.drop_last() =~= report.sections@.take(i as int));
            assert(t.last() == *section);
            assert(md@ =~= head + sections_markdown(t));
        }
        i += 1;
    }
    assert(report.sections@.take(n as int) =~= report.sections@);
    push_str(&mut md, "---\n*本报告由 JDI Portfolio 自动生成*\n");
    assert(md@ =~= report_markdown(*report));
    md
}

} // verus!
