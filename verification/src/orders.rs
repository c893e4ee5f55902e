//! Orders as they are handed to the exchange, and what comes back.
use crate::decimal::{self, Decimal};
use crate::errors::ApiError;
use crate::models::{OrderRequest, OrderResponse};
use crate::text;
use vstd::prelude::*;
use vstd::string::*;

verus! {

/// How many decimal places the amount of an order has.
pub const AMOUNT_PLACES: u32 = 2;

#[derive(Clone, Copy, Debug, PartialEq, Eq, Structural)]
pub enum Side {
    Buy,
    Sell,
}

/// What becomes of a market order that cannot be filled at once.
#[derive(Clone, Copy, Debug, PartialEq, Eq, Structural)]
pub enum OrderKind {
    /// It is dropped.
    FillOrKill,
    /// It is filled as far as it can be.
    FillAndKill,
}

/// An order at a price.
#[derive(Clone, Debug)]
pub struct LimitOrder {
    pub token_id: String,
    pub side: Side,
    pub size: Decimal,
    pub price: Decimal,
}

/// A market order at the price that the market has.
#[derive(Clone, Debug)]
pub struct PricedOrder {
    pub token_id: String,
    pub side: Side,
    pub kind: OrderKind,
    pub size: Decimal,
    pub price: Decimal,
}

/// A market order whose price is yet to be asked for.
#[derive(Clone, Debug)]
pub struct MarketPlan {
    pub token_id: String,
    pub side: Side,
    pub kind: OrderKind,
    pub size: Decimal,
}

/// One of the orders of a batch.
#[derive(Clone, Debug)]
pub struct BatchOrder {
    pub token_id: String,
    /// None where the amount is no decimal number.
    pub amount: Option<Decimal>,
    pub side: String,
    pub order_type: Option<String>,
}

/// The exchange's answer to an order.
#[derive(Clone, Debug)]
pub struct Posted {
    pub success: bool,
    pub error_msg: Option<String>,
    pub order_id: String,
    pub status: String,
}

/// The side that a text names.
pub open spec fn side_of(side: Seq<char>) -> Option<Side> {
    if side == "BUY"@ {
        Some(Side::Buy)
    } else if side == "SELL"@ {
        Some(Side::Sell)
    } else {
        None
    }
}

/// The kind that a text names; anything but `FAK` means that the order is filled or dropped.
pub open spec fn kind_of(order_type: Option<Seq<char>>) -> OrderKind {
    if order_type == Some("FAK"@) {
        OrderKind::FillAndKill
    } else {
        OrderKind::FillOrKill
    }
}

impl Side {
    /// The name of the side.
    pub open spec fn name_text(self) -> Seq<char> {
        match self {
            Side::Buy => "BUY"@,
            Side::Sell => "SELL"@,
        }
    }

    /// The name of the side.
    pub fn name(self) -> (name: &'static str)
        ensures
            name@ == self.name_text(),
            side_of(name@) == Some(self),
    {
        proof {
            names_differ();
        }
        match self {
            Side::Buy => "BUY",
            Side::Sell => "SELL",
        }
    }
}

/// The names of the two sides are not the same.
proof fn names_differ()
    ensures
        "BUY"@ != "SELL"@,
{
    reveal_strlit("BUY");
    reveal_strlit("SELL");
    assert("BUY"@.len() != "SELL"@.len());
}

/// The side that a text names.
pub fn parse_side(side: &str) -> (parsed: Result<Side, ApiError>)
    ensures
        match parsed {
            Ok(s) => side_of(side@) == Some(s),
            Err(error) => {
                &&& side_of(side@) is None
                &&& error matches ApiError::InvalidSide { side: named }
                &&& named@ == side@
            },
        },
{
    proof {
        names_differ();
    }
    if text::same_text(side, "BUY") {
        Ok(Side::Buy)
    } else if text::same_text(side, "SELL") {
        Ok(Side::Sell)
    } else {
        Err(ApiError::InvalidSide { side: side.to_owned() })
    }
}

/// The text of an optional string slice.
pub open spec fn slice_text(s: Option<&str>) -> Option<Seq<char>> {
    match s {
        Some(t) => Some(t@),
        None => None,
    }
}

/// The kind that a text names.
pub fn parse_kind(order_type: Option<&str>) -> (kind: OrderKind)
    ensures
        kind == kind_of(slice_text(order_type)),
{
    match order_type {
        Some(name) => if text::same_text(name, "FAK") {
            OrderKind::FillAndKill
        } else {
            OrderKind::FillOrKill
        },
        None => OrderKind::FillOrKill,
    }
}

/// That `result` is what comes of an order, given what its price and its size denote: the first of
/// the side, the price and the size that is not valid is refused.
pub open spec fn is_built(
    order: OrderRequest,
    price: Option<Decimal>,
    size: Option<Decimal>,
    result: Result<LimitOrder, ApiError>,
) -> bool {
    if side_of(order.side@) is None {
        result matches Err(ApiError::InvalidSide { side }) && side@ == order.side@
    } else if price is None {
        result matches Err(ApiError::InvalidPrice { price: named }) && named@ == order.price@
    } else if size is None {
        result matches Err(ApiError::InvalidSize { size: named }) && named@ == order.size@
    } else {
        &&& result matches Ok(built)
        &&& built.token_id@ == order.token_id@
        &&& Some(built.side) == side_of(order.side@)
        &&& Some(built.price) == price
        &&& Some(built.size) == size
    }
}

/// An order at a price, given what its price and its size denote.
pub fn build_order(order: &OrderRequest, price: Option<Decimal>, size: Option<Decimal>) -> (result:
    Result<LimitOrder, ApiError>)
    ensures
        is_built(*order, price, size, result),
{
    let side = match parse_side(order.side.as_str()) {
        Ok(side) => side,
        Err(error) => return Err(error),
    };
    let price = match price {
        Some(price) => price,
        None => return Err(ApiError::InvalidPrice { price: order.price.clone() }),
    };
    let size = match size {
        Some(size) => size,
        None => return Err(ApiError::InvalidSize { size: order.size.clone() }),
    };
    Ok(LimitOrder { token_id: order.token_id.clone(), side, size, price })
}

/// Whether a number, if there is one, is what a text denotes.
pub open spec fn is_reading(text: Seq<char>, number: Option<Decimal>) -> bool {
    match number {
        Some(d) => decimal::decimal_of_text(text) == Some((d.m(), d.s())),
        None => decimal::decimal_of_text(text) is None,
    }
}

/// The order at a price that a request asks for.
pub fn limit_order(order: &OrderRequest) -> (result: Result<LimitOrder, ApiError>)
    ensures
        exists|price: Option<Decimal>, size: Option<Decimal>| #[trigger]
            is_reading(order.price@, price) && #[trigger] is_reading(order.size@, size) && is_built(
                *order,
                price,
                size,
                result,
            ),
{
    let price = Decimal::parse(order.price.as_str());
    let size = Decimal::parse(order.size.as_str());
    assert(is_reading(order.price@, price));
    assert(is_reading(order.size@, size));
    build_order(order, price, size)
}

/// That `size` is an amount to two decimal places, midpoints rounded away from zero.
pub open spec fn is_order_size(amount: Decimal, size: Decimal) -> bool {
    if amount.s() <= AMOUNT_PLACES {
        size == amount
    } else {
        &&& size.s() == AMOUNT_PLACES
        &&& size.m() == decimal::rounded_away(
            amount.m(),
            decimal::pow10((amount.s() - AMOUNT_PLACES) as nat),
        )
    }
}

/// That `plan` is a market order of the given token, amount, side and kind.
pub open spec fn is_plan(
    token_id: Seq<char>,
    amount: Decimal,
    side: Side,
    kind: OrderKind,
    plan: MarketPlan,
) -> bool {
    &&& plan.token_id@ == token_id
    &&& plan.side == side
    &&& plan.kind == kind
    &&& is_order_size(amount, plan.size)
}

/// A market order, given its amount as a decimal number, if it is one.
pub fn market_plan(
    token_id: &str,
    amount: Option<Decimal>,
    side: &str,
    order_type: Option<&str>,
) -> (result: Result<MarketPlan, ApiError>)
    ensures
        match side_of(side@) {
            None => result matches Err(ApiError::InvalidSide { side: named }) && named@ == side@,
            Some(s) => match amount {
                None => result == Err::<MarketPlan, ApiError>(ApiError::InvalidAmount),
                Some(a) => result matches Ok(plan) && is_plan(
                    token_id@,
                    a,
                    s,
                    kind_of(slice_text(order_type)),
                    plan,
                ),
            },
        },
{
    let side = match parse_side(side) {
        Ok(side) => side,
        Err(error) => return Err(error),
    };
    let kind = parse_kind(order_type);
    match amount {
        Some(amount) => Ok(
            MarketPlan {
                token_id: token_id.to_owned(),
                side,
                kind,
                size: amount.rounded(AMOUNT_PLACES),
            },
        ),
        None => Err(ApiError::InvalidAmount),
    }
}

impl MarketPlan {
    /// The order at the price that the market has.
    pub fn at_price(self, price: Decimal) -> (order: PricedOrder)
        ensures
            order.token_id == self.token_id,
            order.side == self.side,
            order.kind == self.kind,
            order.size == self.size,
            order.price == price,
    {
        PricedOrder {
            token_id: self.token_id,
            side: self.side,
            kind: self.kind,
            size: self.size,
            price,
        }
    }
}

/// A batch of market orders that are posted together, once each of them has its price.
#[derive(Clone, Debug)]
pub struct Batch {
    orders: Vec<BatchOrder>,
    priced: Vec<PricedOrder>,
}

/// That `order` is one of a batch, at the price that the market had for it.
pub open spec fn is_priced(request: BatchOrder, order: PricedOrder) -> bool {
    &&& order.token_id@ == request.token_id@
    &&& side_of(request.side@) == Some(order.side)
    &&& order.kind == kind_of(string_text(request.order_type))
    &&& request.amount matches Some(amount) && is_order_size(amount, order.size)
}

/// The text of an optional string.
pub open spec fn string_text(s: Option<String>) -> Option<Seq<char>> {
    match s {
        Some(t) => Some(t@),
        None => None,
    }
}

impl Batch {
    /// The orders of the batch.
    pub closed spec fn requests(self) -> Seq<BatchOrder> {
        self.orders@
    }

    /// The orders that have their prices, from the first one on.
    pub closed spec fn ready(self) -> Seq<PricedOrder> {
        self.priced@
    }

    /// That the orders with prices are the first ones of the batch.
    pub open spec fn well_formed(self) -> bool {
        &&& self.ready().len() <= self.requests().len()
        &&& forall|i: int|
            0 <= i < self.ready().len() ==> is_priced(self.requests()[i], #[trigger] self.ready()[i])
    }

    /// A batch whose orders have no prices yet.
    pub fn new(orders: Vec<BatchOrder>) -> (batch: Result<Batch, ApiError>)
        ensures
            match batch {
                Ok(b) => {
                    &&& orders@.len() > 0
                    &&& b.well_formed()
                    &&& b.requests() == orders@
                    &&& b.ready().len() == 0
                },
                Err(error) => orders@.len() == 0 && error == ApiError::EmptyBatch,
            },
    {
        if orders.len() == 0 {
            Err(ApiError::EmptyBatch)
        } else {
            Ok(Batch { orders, priced: Vec::new() })
        }
    }

    /// The next order that needs a price, if there is one left.
    pub fn next_order(&self) -> (next: Result<Option<MarketPlan>, ApiError>)
        requires
            self.well_formed(),
        ensures
            ({
                let index = self.ready().len() as int;
                if index == self.requests().len() {
                    next matches Ok(None)
                } else {
                    let request = self.requests()[index];
                    match side_of(request.side@) {
                        None => next matches Err(ApiError::InvalidSide { side }) && side@
                            == request.side@,
                        Some(side) => match request.amount {
                            None => next == Err::<Option<MarketPlan>, ApiError>(
                                ApiError::InvalidBatchAmount { index: index as u64 },
                            ),
                            Some(amount) => next matches Ok(Some(plan)) && is_plan(
                                request.token_id@,
                                amount,
                                side,
                                kind_of(string_text(request.order_type)),
                                plan,
                            ),
                        },
                    }
                }
            }),
    {
        let index: usize = self.priced.len();
        if index == self.orders.len() {
            return Ok(None);
        }
        let request = &self.orders[index];
        let order_type: Option<&str> = match &request.order_type {
            Some(kind) => Some(kind.as_str()),
            None => None,
        };
        match market_plan(
            request.token_id.as_str(),
            request.amount,
            request.side.as_str(),
            order_type,
        ) {
            Ok(plan) => Ok(Some(plan)),
            Err(ApiError::InvalidAmount) => Err(
                ApiError::InvalidBatchAmount { index: index as u64 },
            ),
            Err(error) => Err(error),
        }
    }

    /// Whether there is an order left that needs a price, and it is a valid one.
    pub open spec fn can_go_on(self) -> bool {
        let index = self.ready().len() as int;
        &&& index < self.requests().len()
        &&& side_of(self.requests()[index].side@) is Some
        &&& self.requests()[index].amount is Some
    }

    /// Enters the price that the market has for the next order, and returns that order. Where no
    /// valid one is left, nothing changes.
    pub fn set_price(&mut self, price: Decimal) -> (order: Option<PricedOrder>)
        requires
            old(self).well_formed(),
        ensures
            final(self).well_formed(),
            final(self).requests() == old(self).requests(),
            order is Some <==> old(self).can_go_on(),
            order is None ==> final(self).ready() == old(self).ready(),
            order matches Some(o) ==> {
                let request = old(self).requests()[old(self).ready().len() as int];
                let entered = final(self).ready().last();
                &&& is_priced(request, o)
                &&& o.price == price
                &&& final(self).ready().len() == old(self).ready().len() + 1
                &&& final(self).ready().drop_last() == old(self).ready()
                &&& entered.token_id@ == o.token_id@
                &&& entered.side == o.side
                &&& entered.kind == o.kind
                &&& entered.size == o.size
                &&& entered.price == price
            },
    {
        let plan = match self.next_order() {
            Ok(Some(plan)) => plan,
            _ => return None,
        };
        let order = plan.at_price(price);
        let ghost before = self.priced@;
        let entered = PricedOrder {
            token_id: order.token_id.clone(),
            side: order.side,
            kind: order.kind,
            size: order.size,
            price: order.price,
        };
        self.priced.push(entered);
        assert(self.ready().drop_last() =~= before);
        assert forall|i: int| 0 <= i < self.ready().len() implies is_priced(
            self.requests()[i],
            #[trigger] self.ready()[i],
        ) by {
            if i < before.len() {
                assert(self.ready()[i] == before[i]);
            }
        }
        Some(order)
    }

    /// The orders to post, once all of them have their prices.
    pub fn orders_to_post(&self) -> (orders: Option<&Vec<PricedOrder>>)
        requires
            self.well_formed(),
        ensures
            orders is Some <==> self.ready().len() == self.requests().len(),
            orders matches Some(o) ==> o@ == self.ready(),
    {
        if self.priced.len() == self.orders.len() {
            Some(&self.priced)
        } else {
            None
        }
    }
}

/// A batch is posted as a whole or not at all: what is posted holds one order for each of those
/// that were asked for, in the same order.
pub proof fn batch_is_posted_whole(batch: Batch)
    requires
        batch.well_formed(),
        batch.ready().len() == batch.requests().len(),
    ensures
        forall|i: int|
            0 <= i < batch.requests().len() ==> is_priced(
                #[trigger] batch.requests()[i],
                batch.ready()[i],
            ),
{
    assert forall|i: int| 0 <= i < batch.requests().len() implies is_priced(
        #[trigger] batch.requests()[i],
        batch.ready()[i],
    ) by {
        let order = batch.ready()[i];
    }
}

/// What an order that was placed is reported as.
pub open spec fn is_response(posted: Posted, success_words: Seq<char>, response: OrderResponse) -> bool {
    &&& response.order_id matches Some(id) && id@ == posted.order_id@
    &&& response.status@ == posted.status@
    &&& if posted.success {
        response.message matches Some(message) && message@ == success_words + posted.order_id@
    } else {
        string_text(response.message) == string_text(posted.error_msg)
    }
}

/// Why an order was rejected, as far as the exchange says.
pub open spec fn rejection(posted: Posted) -> Seq<char> {
    match posted.error_msg {
        Some(message) => message@,
        None => "Unknown error"@,
    }
}

/// A copy of an optional string.
fn copy_of(s: &Option<String>) -> (copy: Option<String>)
    ensures
        string_text(copy) == string_text(*s),
{
    match s {
        Some(t) => Some(t.clone()),
        None => None,
    }
}

/// What comes of an order at a price, given the exchange's answer to it.
pub fn order_placed(order: &OrderRequest, posted: &Posted) -> (result: Result<
    OrderResponse,
    ApiError,
>)
    ensures
        match result {
            Ok(response) => posted.success && is_response(
                *posted,
                "Order placed successfully. Order ID: "@,
                response,
            ),
            Err(error) => {
                &&& !posted.success
                &&& error matches ApiError::OrderRejected { reason, token_id, side, size, price }
                &&& reason@ == rejection(*posted)
                &&& token_id@ == order.token_id@
                &&& side@ == order.side@
                &&& size@ == order.size@
                &&& price@ == order.price@
            },
        },
{
    if !posted.success {
        let reason = match &posted.error_msg {
            Some(message) => message.clone(),
            None => String::from_str("Unknown error"),
        };
        return Err(
            ApiError::OrderRejected {
                reason,
                token_id: order.token_id.clone(),
                side: order.side.clone(),
                size: order.size.clone(),
                price: order.price.clone(),
            },
        );
    }
    Ok(
        OrderResponse {
            order_id: Some(posted.order_id.clone()),
            status: posted.status.clone(),
            message: Some(
                text::joined("Order placed successfully. Order ID: ", posted.order_id.as_str()),
            ),
        },
    )
}

/// What comes of a market order, given the exchange's answer to it.
pub fn market_order_placed(posted: &Posted) -> (response: OrderResponse)
    ensures
        is_response(*posted, "Market order executed successfully. Order ID: "@, response),
{
    OrderResponse {
        order_id: Some(posted.order_id.clone()),
        status: posted.status.clone(),
        message: if posted.success {
            Some(
                text::joined(
                    "Market order executed successfully. Order ID: ",
                    posted.order_id.as_str(),
                ),
            )
        } else {
            copy_of(&posted.error_msg)
        },
    }
}

/// How the order with the given number in a batch is said to have been executed.
pub open spec fn batch_words(number: nat) -> Seq<char> {
    "Batch order "@ + text::digits(number) + " executed successfully. Order ID: "@
}

/// Whether any of the orders was executed.
pub open spec fn some_executed(posted: Seq<Posted>) -> bool {
    exists|i: int| 0 <= i < posted.len() && (#[trigger] posted[i]).success
}

/// Whether any of the orders was not executed.
pub open spec fn some_failed(posted: Seq<Posted>) -> bool {
    exists|i: int| 0 <= i < posted.len() && !(#[trigger] posted[i]).success
}

/// The numbers of the orders that were not executed; the first order has the number one.
pub open spec fn failed_numbers(posted: Seq<Posted>) -> Seq<u64>
    decreases posted.len(),
{
    if posted.len() == 0 {
        Seq::empty()
    } else if posted.last().success {
        failed_numbers(posted.drop_last())
    } else {
        failed_numbers(posted.drop_last()).push(posted.len() as u64)
    }
}

/// That `result` is what comes of the orders of a batch: a response to each, or which of them
/// failed where others did not.
pub open spec fn is_batch_result(
    posted: Seq<Posted>,
    result: Result<Vec<OrderResponse>, ApiError>,
) -> bool {
    if some_executed(posted) && some_failed(posted) {
        result matches Err(ApiError::BatchSplit { failed }) && failed@ == failed_numbers(posted)
    } else {
        &&& result matches Ok(responses)
        &&& responses.len() == posted.len()
        &&& forall|i: int|
            0 <= i < posted.len() ==> is_response(
                posted[i],
                batch_words((i + 1) as nat),
                #[trigger] responses@[i],
            )
    }
}

/// What comes of the orders of a batch, given the exchange's answers to them. A batch is executed
/// as a whole or not at all: where only some of its orders were, that is an error.
pub fn batch_placed(posted: &Vec<Posted>) -> (result: Result<Vec<OrderResponse>, ApiError>)
    ensures
        is_batch_result(posted@, result),
{
    let mut responses: Vec<OrderResponse> = Vec::new();
    let mut failed: Vec<u64> = Vec::new();
    let mut executed = false;
    let mut i: usize = 0;
    while i < posted.len()
        invariant
            i <= posted.len(),
            responses.len() == i,
            failed@ == failed_numbers(posted@.take(i as int)),
            executed <==> some_executed(posted@.take(i as int)),
            failed@.len() > 0 <==> some_failed(posted@.take(i as int)),
            forall|j: int|
                0 <= j < i ==> is_response(
                    posted@[j],
                    batch_words((j + 1) as nat),
                    #[trigger] responses@[j],
                ),
        decreases posted.len() - i,
    {
        let answer = &posted[i];
        let number: u64 = i as u64 + 1;
        proof {
            lemma_one_more_answer(posted@, i as int);
        }
        let message = if answer.success {
            executed = true;
            let mut words = String::from_str("Batch order ");
            text::append_number(&mut words, number);
            words.append(" executed successfully. Order ID: ");
            words.append(answer.order_id.as_str());
            Some(words)
        } else {
            failed.push(number);
            copy_of(&answer.error_msg)
        };
        responses.push(
            OrderResponse {
                order_id: Some(answer.order_id.clone()),
                status: answer.status.clone(),
                message,
            },
        );
        i += 1;
    }
    assert(posted@.take(i as int) =~= posted@);
    if executed && failed.len() > 0 {
        Err(ApiError::BatchSplit { failed })
    } else {
        Ok(responses)
    }
}

/// What one more answer adds to what is known of a batch.
proof fn lemma_one_more_answer(posted: Seq<Posted>, i: int)
    requires
        0 <= i < posted.len(),
    ensures
        failed_numbers(posted.take(i + 1)) == (if posted[i].success {
            failed_numbers(posted.take(i))
        } else {
            failed_numbers(posted.take(i)).push((i + 1) as u64)
        }),
        some_executed(posted.take(i + 1)) <==> some_executed(posted.take(i)) || posted[i].success,
        some_failed(posted.take(i + 1)) <==> some_failed(posted.take(i)) || !posted[i].success,
{
    let before = posted.take(i);
    let after = posted.take(i + 1);
    assert(after.drop_last() =~= before);
    assert(after[i] == posted[i]);
    assert forall|j: int| 0 <= j < i implies before[j] == after[j] by {}
    if some_executed(before) {
        let j = choose|j: int| 0 <= j < before.len() && (#[trigger] before[j]).success;
        assert(after[j].success);
    }
    if some_failed(before) {
        let j = choose|j: int| 0 <= j < before.len() && !(#[trigger] before[j]).success;
        assert(!after[j].success);
    }
    if some_executed(after) {
        let j = choose|j: int| 0 <= j < after.len() && (#[trigger] after[j]).success;
        assert(j < i ==> before[j].success);
    }
    if some_failed(after) {
        let j = choose|j: int| 0 <= j < after.len() && !(#[trigger] after[j]).success;
        assert(j < i ==> !before[j].success);
    }
}

impl Batch {
    /// What comes of the batch once it was posted, given the exchange's answers. Each order has to
    /// have an answer of its own, and the response at a place is to the order at that place.
    pub fn answered(&self, posted: &Vec<Posted>) -> (result: Result<Vec<OrderResponse>, ApiError>)
        ensures
            posted.len() != self.requests().len() ==> result == Err::<Vec<OrderResponse>, ApiError>(
                ApiError::AnswerCount {
                    orders: self.requests().len() as u64,
                    answers: posted.len() as u64,
                },
            ),
            posted.len() == self.requests().len() ==> is_batch_result(posted@, result),
            result matches Ok(responses) ==> responses.len() == self.requests().len(),
    {
        if posted.len() != self.orders.len() {
            return Err(
                ApiError::AnswerCount {
                    orders: self.orders.len() as u64,
                    answers: posted.len() as u64,
                },
            );
        }
        batch_placed(posted)
    }
}

/// Whether a response says that its order was executed.
pub open spec fn says_success(response: OrderResponse) -> bool {
    response.message matches Some(message) && text::contains_text(message@, "successfully"@)
}

/// How many of the responses say that their orders were not executed.
pub open spec fn failures(responses: Seq<OrderResponse>) -> nat
    decreases responses.len(),
{
    if responses.len() == 0 {
        0
    } else {
        failures(responses.drop_last()) + if says_success(responses.last()) {
            0nat
        } else {
            1nat
        }
    }
}

/// How many of the responses say that their orders were not executed.
pub fn count_failures(responses: &Vec<OrderResponse>) -> (count: usize)
    ensures
        count == failures(responses@),
        count <= responses.len(),
{
    let mut count: usize = 0;
    let mut i: usize = 0;
    while i < responses.len()
        invariant
            i <= responses.len(),
            count == failures(responses@.take(i as int)),
            count <= i,
        decreases responses.len() - i,
    {
        let ghost seen = responses@.take(i + 1);
        assert(seen.drop_last() =~= responses@.take(i as int));
        assert(seen.last() == responses@[i as int]);
        let executed = match &responses[i].message {
            Some(message) => text::contains(message.as_str(), "successfully"),
            None => false,
        };
        if !executed {
            count += 1;
        }
        i += 1;
    }
    assert(responses@.take(i as int) =~= responses@);
    count
}

/// An order that was executed is never counted among the failures.
pub proof fn success_is_said(posted: Posted, number: nat, response: OrderResponse)
    requires
        posted.success,
        is_response(posted, batch_words(number), response),
    ensures
        says_success(response),
{
    let tail = " executed successfully. Order ID: "@;
    reveal_strlit(" executed successfully. Order ID: ");
    reveal_strlit("successfully");
    let head = "Batch order "@ + text::digits(number);
    let message = response.message->0@;
    let at = head.len() as int + 10;
    assert(message =~= head + tail + posted.order_id@);
    assert(message.subrange(at, at + 12) =~= "successfully"@);
    assert(text::occurs_at(message, "successfully"@, at));
}

/// Where every order of a batch was executed, no failure is counted.
pub proof fn whole_batch_succeeds(posted: Seq<Posted>, responses: Seq<OrderResponse>)
    requires
        responses.len() == posted.len(),
        forall|i: int| 0 <= i < posted.len() ==> (#[trigger] posted[i]).success,
        forall|i: int|
            0 <= i < posted.len() ==> is_response(
                posted[i],
                batch_words((i + 1) as nat),
                #[trigger] responses[i],
            ),
    ensures
        failures(responses) == 0,
    decreases responses.len(),
{
    if responses.len() > 0 {
        let last = responses.len() - 1;
        assert(posted[last].success);
        assert(is_response(posted[last], batch_words((last + 1) as nat), responses[last]));
        success_is_said(posted[last], (last + 1) as nat, responses[last]);
        let front = posted.drop_last();
        let said = responses.drop_last();
        assert forall|i: int| 0 <= i < front.len() implies (#[trigger] front[i]).success by {
            assert(posted[i].success);
        }
        assert forall|i: int| 0 <= i < front.len() implies is_response(
            front[i],
            batch_words((i + 1) as nat),
            #[trigger] said[i],
        ) by {
            assert(said[i] == responses[i]);
        }
        whole_batch_succeeds(front, said);
    }
}

/// A batch that is reported without an error was executed as a whole, with no failure counted, or
/// not at all.
pub proof fn batch_is_executed_whole(posted: Seq<Posted>, responses: Vec<OrderResponse>)
    requires
        is_batch_result(posted, Ok(responses)),
    ensures
        some_executed(posted) ==> failures(responses@) == 0,
        some_executed(posted) ==> forall|i: int|
            0 <= i < posted.len() ==> (#[trigger] posted[i]).success,
{
    if some_executed(posted) {
        whole_batch_succeeds(posted, responses@);
    }
}

/// The size of an order is its amount to the nearest hundredth: it is no more than half a hundredth
/// off, and at just half a hundredth it is the larger one. An amount with two decimal places or fewer
/// is taken as it is.
pub proof fn sizes_are_nearest_hundredths(amount: Decimal, size: Decimal)
    requires
        amount.valid(),
        is_order_size(amount, size),
    ensures
        amount.s() <= 2 ==> size == amount,
        2 * decimal::magnitude(size.units() - amount.units()) <= decimal::step_units(2),
        2 * decimal::magnitude(size.units() - amount.units()) == decimal::step_units(2)
            ==> decimal::magnitude(size.units()) > decimal::magnitude(amount.units()),
        amount.s() > 2 ==> size.s() == 2,
{
    decimal::lemma_step(2);
    if amount.s() > 2 {
        let places = (amount.s() - 2) as nat;
        let place = decimal::pow10(places);
        let step = decimal::step_units(amount.s());
        let m = amount.m();
        decimal::lemma_pow10(places);
        decimal::lemma_step(amount.s());
        lemma_steps_of_hundredth(amount.s());
        assert(place % 2 == 0) by {
            decimal::lemma_pow10((places - 1) as nat);
        }
        let size_m = decimal::rounded_away(m, place);
        let off = size_m * place - m;
        assert(2 * decimal::magnitude(off) <= place && (2 * decimal::magnitude(off) == place
            ==> decimal::magnitude(size_m * place) > decimal::magnitude(m))) by {
            lemma_rounded_away(m, place);
        }
        assert(size.units() == (size_m * place) * step) by (nonlinear_arith)
            requires
                size.units() == size_m * decimal::step_units(2),
                decimal::step_units(2) == place * step,
        ;
        assert(size.units() - amount.units() == off * step) by (nonlinear_arith)
            requires
                size.units() == (size_m * place) * step,
                amount.units() == m * step,
                off == size_m * place - m,
        ;
        lemma_magnitude_scales(off, step);
        lemma_magnitude_scales(size_m * place, step);
        lemma_magnitude_scales(m, step);
        let x = decimal::magnitude(off);
        assert(2 * (x * step) <= place * step && (2 * (x * step) == place * step ==> 2 * x == place))
            by (nonlinear_arith)
            requires
                2 * x <= place,
                step >= 1,
        ;
        let y = decimal::magnitude(size_m * place);
        let z = decimal::magnitude(m);
        assert(y > z ==> y * step > z * step) by (nonlinear_arith)
            requires
                step >= 1,
        ;
    }
}

proof fn lemma_magnitude_scales(x: int, k: int)
    requires
        k >= 1,
    ensures
        decimal::magnitude(x * k) == decimal::magnitude(x) * k,
{
    assert((x < 0 ==> x * k < 0) && (x >= 0 ==> x * k >= 0) && -(x * k) == (-x) * k)
        by (nonlinear_arith)
        requires
            k >= 1,
    ;
}

/// A hundredth is as many of the steps of a finer scale as the digits between them say.
proof fn lemma_steps_of_hundredth(scale: int)
    requires
        2 <= scale <= 28,
    ensures
        decimal::step_units(2) == decimal::pow10((scale - 2) as nat) * decimal::step_units(scale),
    decreases scale,
{
    if scale > 2 {
        lemma_steps_of_hundredth(scale - 1);
        decimal::lemma_step(scale);
        decimal::lemma_pow10((scale - 2) as nat);
        let p = decimal::pow10((scale - 3) as nat);
        let step = decimal::step_units(scale);
        assert(p * (10 * step) == (10 * p) * step) by (nonlinear_arith);
    } else {
        assert(decimal::pow10(0) == 1);
    }
}

proof fn lemma_rounded_away(m: int, place: int)
    requires
        place >= 2,
        place % 2 == 0,
    ensures
        2 * decimal::magnitude(decimal::rounded_away(m, place) * place - m) <= place,
        2 * decimal::magnitude(decimal::rounded_away(m, place) * place - m) == place
            ==> decimal::magnitude(decimal::rounded_away(m, place) * place) > decimal::magnitude(m),
{
    let n = decimal::magnitude(m) + place / 2;
    let q = n / place;
    vstd::arithmetic::div_mod::lemma_fundamental_div_mod(n, place);
    vstd::arithmetic::div_mod::lemma_mod_bound(n, place);
    assert(q * place == place * q && (-q) * place == -(q * place)) by (nonlinear_arith);
    assert(q >= 0) by (nonlinear_arith)
        requires
            n < place * q + place,
            n >= 0,
            place >= 2,
    ;
    assert(q * place >= 0) by (nonlinear_arith)
        requires
            q >= 0,
            place >= 2,
    ;
}

/// The failed orders are named exactly: a number is among them where the order with it was not
/// executed, and no number is there twice.
pub proof fn failed_orders_are_named(posted: Seq<Posted>, number: u64)
    requires
        posted.len() <= u64::MAX,
    ensures
        failed_numbers(posted).contains(number) <==> 1 <= number <= posted.len() && !posted[number
            - 1].success,
        failed_numbers(posted).no_duplicates(),
        forall|i: int|
            0 <= i < failed_numbers(posted).len() ==> 1 <= #[trigger] failed_numbers(posted)[i]
                <= posted.len(),
    decreases posted.len(),
{
    let failed = failed_numbers(posted);
    if posted.len() > 0 {
        let front = posted.drop_last();
        let before = failed_numbers(front);
        let last = posted.len() as u64;
        failed_orders_are_named(front, number);
        assert(number < posted.len() && number >= 1 ==> front[number - 1] == posted[number - 1]);
        if !posted.last().success {
            assert(failed == before.push(last));
            assert(failed[before.len() as int] == last);
            assert forall|n: u64| #[trigger] failed.contains(n) == (before.contains(n) || n == last) by {
                if before.contains(n) {
                    let k = choose|k: int| 0 <= k < before.len() && before[k] == n;
                    assert(failed[k] == n);
                }
            }
        }
    }
}

/// Failures are counted one by one: those of a list are those of its parts, one for a response that
/// does not say that its order was executed and none for one that does.
pub proof fn failures_are_counted_one_by_one(
    responses: Seq<OrderResponse>,
    response: OrderResponse,
)
    ensures
        failures(Seq::<OrderResponse>::empty()) == 0,
        failures(responses.push(response)) == failures(responses) + (if response.message is Some
            && text::contains_text(response.message->0@, "successfully"@) {
            0int
        } else {
            1
        }),
        failures(responses) <= responses.len(),
    decreases responses.len(),
{
    assert(responses.push(response).drop_last() =~= responses);
    if responses.len() > 0 {
        failures_are_counted_one_by_one(responses.drop_last(), responses.last());
    }
}

/// A response carries what the exchange answered: the identifier and the status of the order, the
/// identifier in its message where the order succeeded, and the exchange's own words where it did not.
pub proof fn responses_carry_the_answer(
    posted: Posted,
    words: Seq<char>,
    response: OrderResponse,
)
    requires
        is_response(posted, words, response),
    ensures
        response.order_id is Some && response.order_id->0@ == posted.order_id@,
        response.status@ == posted.status@,
        posted.success ==> response.message is Some && response.message->0@.take(words.len() as int)
            == words && response.message->0@.skip(words.len() as int) == posted.order_id@,
        !posted.success && posted.error_msg is None ==> response.message is None,
        !posted.success && posted.error_msg is Some ==> response.message is Some
            && response.message->0@ == posted.error_msg->0@,
{
    if posted.success {
        let message = response.message->0@;
        assert(message.take(words.len() as int) =~= words);
        assert(message.skip(words.len() as int) =~= posted.order_id@);
    }
}

/// What is posted for an order of a batch is that order: its token, the side that it names, its
/// amount to the nearest hundredth, and to be filled in part only where it says `FAK`.
pub proof fn posted_orders_are_those_asked_for(request: BatchOrder, order: PricedOrder)
    requires
        is_priced(request, order),
        request.amount is Some && request.amount->0.valid(),
    ensures
        order.token_id@ == request.token_id@,
        request.side@ == "BUY"@ ==> order.side == Side::Buy,
        request.side@ == "SELL"@ ==> order.side == Side::Sell,
        request.side@ == "BUY"@ || request.side@ == "SELL"@,
        order.kind == OrderKind::FillAndKill <==> request.order_type is Some
            && request.order_type->0@ == "FAK"@,
        2 * decimal::magnitude(order.size.units() - request.amount->0.units())
            <= decimal::step_units(2),
{
    names_differ();
    sizes_are_nearest_hundredths(request.amount->0, order.size);
}

/// A market order keeps what was asked for: its token, its side, its kind, and its amount to the
/// nearest hundredth.
pub proof fn plans_keep_the_request(
    token_id: Seq<char>,
    amount: Decimal,
    side: Side,
    order_type: Option<Seq<char>>,
    plan: MarketPlan,
)
    requires
        amount.valid(),
        is_plan(token_id, amount, side, kind_of(order_type), plan),
    ensures
        plan.token_id@ == token_id,
        plan.side == side,
        plan.kind == OrderKind::FillAndKill <==> order_type == Some("FAK"@),
        2 * decimal::magnitude(plan.size.units() - amount.units()) <= decimal::step_units(2),
{
    sizes_are_nearest_hundredths(amount, plan.size);
}

/// An order at a price is built exactly where its side is `BUY` or `SELL` and its price and its size
/// are numbers, and then it is for those.
pub proof fn valid_orders_are_built(
    order: OrderRequest,
    price: Option<Decimal>,
    size: Option<Decimal>,
    result: Result<LimitOrder, ApiError>,
)
    requires
        is_built(order, price, size, result),
    ensures
        result is Ok <==> (order.side@ == "BUY"@ || order.side@ == "SELL"@) && price is Some && size
            is Some,
        result matches Ok(built) ==> {
            &&& built.token_id@ == order.token_id@
            &&& built.side == Side::Buy <==> order.side@ == "BUY"@
            &&& Some(built.price) == price
            &&& Some(built.size) == size
        },
{
    names_differ();
}

/// What comes of a batch is an error only where some of its orders were executed and others were
/// not; where all were or none was, each order has its response.
pub proof fn batches_are_whole_or_split(
    posted: Seq<Posted>,
    result: Result<Vec<OrderResponse>, ApiError>,
    i: int,
    j: int,
)
    requires
        is_batch_result(posted, result),
        0 <= i < posted.len(),
        0 <= j < posted.len(),
    ensures
        posted[i].success && !posted[j].success ==> result is Err,
        (forall|k: int| 0 <= k < posted.len() ==> (#[trigger] posted[k]).success) ==> result is Ok,
        (forall|k: int| 0 <= k < posted.len() ==> !(#[trigger] posted[k]).success) ==> result is Ok,
        result matches Ok(responses) ==> responses.len() == posted.len()
            && responses@[i].order_id is Some && responses@[i].order_id->0@
            == posted[i].order_id@,
{
    if let Ok(responses) = result {
        let response = responses@[i];
    }
}

/// Side and kind are told by their names alone: `BUY` and `SELL` are the sides, and only `FAK` means
/// that an order may be filled in part.
pub proof fn names_of_sides_and_kinds(side: Seq<char>, order_type: Option<Seq<char>>)
    ensures
        side_of(side) == Some(Side::Buy) <==> side == "BUY"@,
        side_of(side) == Some(Side::Sell) <==> side == "SELL"@,
        side_of(side) is None <==> side != "BUY"@ && side != "SELL"@,
        kind_of(order_type) == OrderKind::FillAndKill <==> order_type == Some("FAK"@),
        kind_of(None) == OrderKind::FillOrKill,
{
    names_differ();
}

} // verus!
