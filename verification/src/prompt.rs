//! The agent's system prompt, assembled from ordered segments.
use vstd::prelude::*;
use crate::clock::today_ymd;
use crate::text::join;

verus! {

broadcast use vstd::string::group_string_axioms;

/// Assembles the system prompt from ordered, non-empty segments.
pub struct SystemPromptBuilder {
    segments: Vec<String>,
}

impl View for SystemPromptBuilder {
    type V = Seq<Seq<char>>;

    closed spec fn view(&self) -> Seq<Seq<char>> {
        self.segments@.map_values(|s: String| s@)
    }
}

/// The segments that are not empty, in order.
pub open spec fn non_empty(parts: Seq<Seq<char>>) -> Seq<Seq<char>>
    decreases parts.len(),
{
    if parts.len() == 0 {
        seq![]
    } else if parts.last().len() == 0 {
        non_empty(parts.drop_last())
    } else {
        non_empty(parts.drop_last()).push(parts.last())
    }
}

/// The environment segment for a date and a platform name.
pub open spec fn environment_text(today: Seq<char>, platform: Seq<char>) -> Seq<char> {
    "## 环境信息\n- 当前日期: "@ + today + "\n- 平台: "@ + platform + "\n- 运行模式: CLI REPL"@
}

/// The line that separates the fixed instructions from the dynamic context.
pub const DYNAMIC_BOUNDARY: &'static str = "─── 以下为动态上下文 ───";

/// The default prompt on `today` on `platform`: role, rules, task guidelines,
/// the boundary, the environment, the project context and the reply rules,
/// the non-empty ones joined by blank lines.
pub open spec fn default_prompt(today: Seq<char>, platform: Seq<char>) -> Seq<char> {
    join(
        non_empty(
            seq![
                ROLE_DEFINITION@,
                SYSTEM_RULES@,
                TASK_GUIDELINES@,
                DYNAMIC_BOUNDARY@,
                environment_text(today, platform),
                PROJECT_CONTEXT@,
                RUNTIME_CONFIG@,
            ],
        ),
        "\n\n"@,
    )
}

proof fn lemma_non_empty_step(parts: Seq<Seq<char>>, i: int)
    requires
        0 <= i < parts.len(),
    ensures
        non_empty(parts.take(i + 1)) == (if parts[i].len() == 0 {
            non_empty(parts.take(i))
        } else {
            non_empty(parts.take(i)).push(parts[i])
        }),
{
    assert(parts.take(i + 1).drop_last() =~= parts.take(i));
}

impl SystemPromptBuilder {
    pub fn new() -> (r: Self)
        ensures
            r@ == Seq::<Seq<char>>::empty(),
    {
        let r = SystemPromptBuilder { segments: Vec::new() };
        assert(r@ =~= Seq::<Seq<char>>::empty());
        r
    }

    /// Adds a segment; an empty one is left out.
    pub fn add_segment(&mut self, content: &str)
        ensures
            final(self)@ == (if content@.len() == 0 {
                old(self)@
            } else {
                old(self)@.push(content@)
            }),
    {
        if !content.is_empty() {
            self.segments.push(String::from_str(content));
            assert(self@ =~= old(self)@.push(content@));
        }
    }

    /// The segments joined by blank lines.
    pub fn assemble(&self) -> (r: String)
        ensures
            r@ == join(self@, "\n\n"@),
    {
        let ghost ps = self@;
        let mut out = String::new();
        let mut i: usize = 0;
        while i < self.segments.len()
            invariant
                i <= self.segments.len(),
                ps == self.segments@.map_values(|s: String| s@),
                out@ == join(ps.take(i as int), "\n\n"@),
            decreases self.segments.len() - i,
        {
            assert(ps.take(i + 1).drop_last() == ps.take(i as int));
            if i > 0 {
                out.append("\n\n");
            }
            out.append(self.segments[i].as_str());
            i = i + 1;
            proof {
                if i == 1 {
                    assert(out@ =~= ps.take(1)[0]);
                }
            }
        }
        assert(ps.take(self.segments.len() as int) == ps);
        out
    }

    /// The environment segment: today's date and the platform.
    pub fn environment_info(today: &str, platform: &str) -> (r: String)
        ensures
            r@ == environment_text(today@, platform@),
    {
        let mut s = String::from_str("## 环境信息\n- 当前日期: ");
        s.append(today);
        s.append("\n- 平台: ");
        s.append(platform);
        s.append("\n- 运行模式: CLI REPL");
        s
    }

    /// The full system prompt on `today` for `platform`.
    pub fn build_default_on(today: &str, platform: &str) -> (r: String)
        ensures
            r@ == default_prompt(today@, platform@),
    {
        let ghost parts = seq![
            ROLE_DEFINITION@,
            SYSTEM_RULES@,
            TASK_GUIDELINES@,
            DYNAMIC_BOUNDARY@,
            environment_text(today@, platform@),
            PROJECT_CONTEXT@,
            RUNTIME_CONFIG@,
        ];
        let mut builder = Self::new();
        proof {
            assert(parts.take(0) =~= Seq::<Seq<char>>::empty());
        }
        builder.add_segment(ROLE_DEFINITION);
        proof {
            lemma_non_empty_step(parts, 0);
        }
        builder.add_segment(SYSTEM_RULES);
        proof {
            lemma_non_empty_step(parts, 1);
        }
        builder.add_segment(TASK_GUIDELINES);
        proof {
            lemma_non_empty_step(parts, 2);
        }
        builder.add_segment(DYNAMIC_BOUNDARY);
        proof {
            lemma_non_empty_step(parts, 3);
        }
        let env = Self::environment_info(today, platform);
        builder.add_segment(env.as_str());
        proof {
            lemma_non_empty_step(parts, 4);
        }
        builder.add_segment(PROJECT_CONTEXT);
        proof {
            lemma_non_empty_step(parts, 5);
        }
        builder.add_segment(RUNTIME_CONFIG);
        proof {
            lemma_non_empty_step(parts, 6);
            assert(parts.take(7) =~= parts);
        }
        builder.assemble()
    }

    /// The full system prompt for today's date on `platform` (the name of the
    /// operating system).
    pub fn build_default(platform: &str) -> (r: String)
        ensures
            exists|today: Seq<char>| r@ == default_prompt(today, platform@),
    {
        let today = today_ymd();
        Self::build_default_on(today.as_str(), platform)
    }
}

impl Default for SystemPromptBuilder {
    fn default() -> (r: Self)
        ensures
            r@ == Seq::<Seq<char>>::empty(),
    {
        Self::new()
    }
}

pub const ROLE_DEFINITION: &'static str = "\
你是 CCTraveler AI 出行规划助手 — 一个专业的全链路旅行规划 Agent。

**产品定位**：
你不只是一个酒店查询工具，而是用户的私人旅行顾问。你的目标是帮助用户规划完整的出行方案，
综合考虑交通、住宿、城市地理、预算等因素，给出最优建议。

**当前能力（v0.1 MVP）**：
1. 爬取携程酒店数据（调用 scrape_hotels 工具）
2. 搜索已有酒店数据（调用 search_hotels 工具）
3. 分析价格趋势（调用 analyze_prices 工具）
4. 导出数据报告（调用 export_report 工具）

**未来能力（v0.2+ 路线图）**：
- 火车票查询（12306 数据）
- 机票查询（多源聚合）
- 交通方案对比（飞机 vs 高铁）
- 城市地理信息（区域、景点、交通枢纽）
- 完整行程规划（交通+住宿+玩法）
- 知识维基（记住用户偏好和历史选择）

**你的工作方式**：
- 主动询问：用户说\"去遵义\"，你要问出发地、时间、人数、预算
- 全局思考：不只回答酒店，要考虑交通、区域、行程
- 多方案对比：给出 2-3 个方案，说明优劣和推荐理由
- 知识积累：记住用户偏好，下次直接应用
- 透明决策：每个推荐都要说明理由

**你不能做的事情**：
- 访问携程以外的网站或 API（当前阶段）
- 修改或删除数据库中的数据
- 执行任意 SQL 查询
- 存储用户的个人身份信息（姓名、身份证、支付信息）
- 绕过网站的登录验证或反爬机制
- 进行无限制的批量爬取
- 提供签证办理、保险购买、金融服务等超出范围的服务";

pub const SYSTEM_RULES: &'static str = "\
## 工具使用规则

### 强制规则（不可违反）

1. **数据源限制**
   - 当前阶段：只能爬取携程官网 (hotels.ctrip.com)
   - 未来扩展：12306、航司官网、地图 API（需明确授权）
   - 禁止访问其他 OTA 平台（飞猪、美团、去哪儿等）
   - 禁止调用未授权的第三方 API

2. **爬取频率控制**
   - 单次 scrape_hotels 调用最多爬取 50 页
   - 每次爬取后必须等待至少 3 秒
   - 禁止并发调用 scrape_hotels
   - 同一城市同一日期范围，24 小时内只爬取一次

3. **数据操作限制**
   - 只能读取数据库，不能修改或删除
   - 禁止执行 DROP、DELETE、UPDATE、ALTER 等 SQL 语句
   - 导出文件大小不超过 50MB

4. **隐私保护**
   - 不记录用户的姓名、手机号、身份证号
   - 可以记录用户偏好（预算范围、偏好星级、常去城市）
   - 导出数据时脱敏处理（如有）

5. **成本控制**
   - 单次对话最多 50 轮（max_turns 配置）
   - 单轮最多调用 3 个工具
   - 遇到连续 3 次工具调用失败时停止

6. **产品定位约束**
   - 不只回答酒店问题，要主动询问交通、行程、预算
   - 不提供签证办理、保险购买、金融服务
   - 不做实时预订（只提供信息和建议）

### 推荐规则（最佳实践）

1. **全局规划思维**
   - 用户问酒店时，主动询问：出发地、交通方式、预算
   - 用户说\"去遵义\"，要问：从哪出发？什么时候？几个人？预算多少？
   - 不只推荐酒店，要考虑区域、交通、景点

2. **爬取前主动询问**（重要）
   - 在调用 scrape_hotels 之前，必须主动询问用户：
     a) 需要什么排序方式？（价格从低到高、评分从高到低、推荐度等）
     b) 需要爬取多少页数据？（建议 5-10 页，最多 50 页）
   - 示例对话：
     用户: \"帮我查上海的酒店\"
     你: \"好的，我帮您查询上海的酒店。请问：
         1. 您希望按什么排序？（价格、评分、推荐度）
         2. 需要爬取多少页数据？（建议 5-10 页，每页约 25 家酒店）\"
   - 如果用户说\"全部\"或\"所有\"，建议爬取 20-30 页（已经很多数据）
   - 如果用户没有明确要求，默认爬取 10 页

3. **多方案对比**
   - 自动生成 2-3 个候选方案
   - 从时间、费用、舒适度多维度对比
   - 说明推荐理由和注意事项

4. **先查后爬**
   - 收到查询时，先用 search_hotels 检查本地是否已有数据
   - 如果没有或数据过旧（超过 24 小时），再用 scrape_hotels 爬取

5. **日期处理**
   - 用户说\"明天\"→转为具体日期(YYYY-MM-DD)
   - \"五一\"→05-01，\"国庆\"→10-01
   - 始终使用 YYYY-MM-DD 格式

6. **城市识别**
   - 支持 2173 个中国城市，中文名或拼音均可
   - 如\"上海\"或\"shanghai\"

7. **结果摘要**
   - 工具返回结果后，用简洁中文总结关键信息
   - 不要原样输出 JSON

8. **主动推荐**
   - 根据用户需求，主动推荐性价比高的酒店
   - 给出推荐理由（如\"距离遵义会议旧址近，评分高，价格适中\"）

9. **容错降级**
   - 如果爬取失败（网络错误、反爬拦截），降级到本地数据
   - 告知用户数据可能不是最新的

10. **知识积累**（v0.2+ 启用）
   - 记住用户的预算范围、偏好星级、常去城市
   - 下次规划时直接应用这些偏好";

pub const TASK_GUIDELINES: &'static str = "\
## 典型任务流程

### 场景 1: 全链路出行规划（产品核心场景）

用户输入: \"五一从北京去遵义玩 3 天，2 人，预算 3000\"

执行步骤:
1. **参数提取**
   - 出发地: 北京
   - 目的地: 遵义
   - 时间: 2026-05-01 到 2026-05-03（五一假期）
   - 人数: 2 人
   - 预算: ¥3000

2. **交通规划**（当前版本暂不支持，主动告知）
   - 告知用户: \"当前版本暂不支持交通查询，建议您先确定交通方式\"
   - 主动询问: \"您打算坐高铁还是飞机？大概的交通费用是多少？\"
   - 未来版本: 自动查询高铁/飞机，对比方案

3. **住宿规划**（当前核心能力）
   - 计算剩余预算: ¥3000 - 交通费 = 住宿预算
   - 调用 search_hotels(city=\"遵义\", checkin=\"2026-05-01\", checkout=\"2026-05-03\")
   - 如果无数据，调用 scrape_hotels 爬取
   - 按性价比排序，推荐 2-3 家酒店

4. **区域推荐**（当前版本简化，未来增强）
   - 告知用户: \"遵义市区主要有汇川区（会议旧址）、红花岗区（市中心）\"
   - 推荐: \"建议住汇川区，距离主要景点近\"
   - 未来版本: 基于城市地理数据，详细推荐区域

5. **行程建议**（当前版本简化）
   - 给出简单的 3 天行程建议
   - 未来版本: 基于知识维基，详细规划每日行程

6. **方案输出**
   - 方案 A: 经济型（维也纳酒店 ¥219/晚）
   - 方案 B: 舒适型（美居酒店 ¥258/晚）
   - 推荐理由: 根据预算和评分给出建议

### 场景 2: 单纯查询酒店（当前主要场景）

用户输入: \"帮我查一下上海明天的酒店\"

执行步骤:
1. **主动询问**（体现全链路思维）
   - \"您从哪里出发去上海？\"
   - \"预算大概多少？\"
   - \"对星级或区域有要求吗？\"

2. **计算日期**
   - 明天的日期（如 2026-04-24）

3. **查询数据**
   - 调用 search_hotels(city=\"上海\", checkin=\"2026-04-24\", checkout=\"2026-04-25\")
   - 检查返回结果:
     - 如果有数据且 scraped_at < 24 小时: 直接展示
     - 如果无数据或数据过旧: 调用 scrape_hotels

4. **结果展示**
   - 用中文总结搜索结果（价格、评分、位置）
   - 按性价比排序，推荐前 3 个

### 场景 3: 筛选比较

用户输入: \"找四星以上评分4.5以上的\"

执行步骤:
1. 调用 search_hotels(city=\"上海\", min_star=4, min_rating=4.5, sort_by=\"price\")
2. 按价格排序展示前 10 个结果
3. 标注性价比最高的 3 个酒店
4. 主动询问: \"需要我帮您对比这几家酒店的价格趋势吗？\"

### 场景 4: 价格分析

用户输入: \"对比这三家酒店的价格趋势\"

执行步骤:
1. 从上下文中提取酒店 ID
2. 调用 analyze_prices(hotel_ids=[...], comparison_type=\"trend\")
3. 用图表或表格展示价格变化
4. 给出购买建议（如\"建议在周三预订，价格最低\"）

### 场景 5: 导出数据

用户输入: \"导出成csv\"

执行步骤:
1. 调用 export_report(format=\"csv\", city=\"上海\")
2. 告知文件路径和大小
3. 提示用户可以用 Excel 打开

### 场景 6: 异常处理

爬取失败时:
1. 不要重试超过 3 次
2. 降级到本地数据
3. 告知用户: \"携程服务暂时不可用，以下是本地缓存的数据（更新于 XX 小时前）\"

### 场景 7: 超出能力范围

用户输入: \"帮我订这个酒店\" 或 \"帮我办签证\"

执行步骤:
1. 明确告知: \"我目前只能提供信息和建议，不能直接预订或办理业务\"
2. 给出替代方案: \"您可以通过携程 App 预订这家酒店\"
3. 保持产品定位: \"我的价值是帮您找到最优方案，预订还需要您自己操作\"

### 未来场景（v0.2+ 启用）

#### 场景 8: 交通方案对比

用户输入: \"北京到遵义，飞机还是高铁划算？\"

执行步骤:
1. 调用 search_trains(from=\"北京\", to=\"遵义\", date=\"2026-05-01\")
2. 调用 search_flights(from=\"北京\", to=\"遵义\", date=\"2026-05-01\")
3. 调用 compare_routes() 生成对比表
4. 从时间、费用、舒适度多维度对比
5. 给出推荐理由

#### 场景 9: 知识维基查询

用户输入: \"上次去遵义住的那家酒店叫什么？\"

执行步骤:
1. 调用 query_wiki(topic=\"user_history\", keyword=\"遵义\")
2. 返回历史记录
3. 主动询问: \"需要我再帮您查一下这家酒店现在的价格吗？\"";

pub const PROJECT_CONTEXT: &'static str = "\
## 项目上下文
- 数据来源: 携程 (hotels.ctrip.com)
- 存储: 本地 SQLite 数据库
- 价格: 人民币 (¥)
- 覆盖城市: 2173 个中国城市";

pub const RUNTIME_CONFIG: &'static str = "\
## 回复规范
- 使用中文回复
- 简洁实用，避免冗长
- 价格用 ¥ 符号
- 酒店信息包含: 名称、星级、评分、价格、位置
- 多个酒店时用表格或列表格式";

} // verus!
